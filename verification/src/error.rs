//! Error types and various operations on them.
use vstd::prelude::*;
use vstd::std_specs::convert::{FromSpecImpl, IntoSpec};
use void::Void;

verus! {

/// The uninhabited error type of the `void` crate.
#[verifier::external_type_specification]
#[verifier::external_body]
pub struct ExVoid(Void);

/// Specifies an error that happened during I/O operation. This enables one to compose read and
/// write errors into single type.
///
/// This is different than `std::io::Error`!
#[derive(Debug)]
pub enum IOError<R, W> {
    /// Read operation failed.
    Read(R),
    /// Write operation failed.
    Write(W),
}

impl<R, W> IOError<R, W> {
    /// Merges the variants into common type.
    pub fn merge<E>(e: IOError<R, W>) -> (r: E)
        where
            R: Into<E>,
            W: Into<E>,
        ensures
            match e {
                IOError::Read(x) => R::obeys_into_spec() ==> r == x.into_spec(),
                IOError::Write(x) => W::obeys_into_spec() ==> r == x.into_spec(),
            },
    {
        match e {
            IOError::Read(e) => e.into(),
            IOError::Write(e) => e.into(),
        }
    }

    /// Get `IOError` containing references to errors.
    pub fn as_ref(&self) -> (r: IOError<&R, &W>)
        ensures
            match *self {
                IOError::Read(x) => r matches IOError::Read(y) && *y == x,
                IOError::Write(x) => r matches IOError::Write(y) && *y == x,
            },
    {
        match *self {
            IOError::Read(ref f) => IOError::Read(f),
            IOError::Write(ref s) => IOError::Write(s),
        }
    }

    /// Get `IOError` containing mutable references to errors.
    pub fn as_ref_mut(&mut self) -> (r: IOError<&mut R, &mut W>)
        ensures
            match *old(self) {
                IOError::Read(x) => r matches IOError::Read(y) && *y == x && *final(self) == IOError::<R, W>::Read(*final(y)),
                IOError::Write(x) => r matches IOError::Write(y) && *y == x && *final(self) == IOError::<R, W>::Write(*final(y)),
            },
    {
        match *self {
            IOError::Read(ref mut f) => IOError::Read(f),
            IOError::Write(ref mut s) => IOError::Write(s),
        }
    }
}

/// Error that might occur when reading exact amount of bytes.
#[derive(Debug)]
pub enum ReadExactError<E> {
    /// Low-level error happened.
    Other(E),
    /// Reader reached end unexpectedly.
    ///
    /// Usually EOF, closed connection, etc.
    UnexpectedEnd,
}

impl<E> From<E> for ReadExactError<E> {
    fn from(e: E) -> (r: Self) {
        ReadExactError::Other(e)
    }
}

impl<E> FromSpecImpl<E> for ReadExactError<E> {
    open spec fn obeys_from_spec() -> bool {
        true
    }

    open spec fn from_spec(e: E) -> Self {
        ReadExactError::Other(e)
    }
}

/// Error returned when chained readers fail. It allows inspecting which reader failed, keeping
/// it's own error type. For simplicity it can be also merged, if the two errors are convertible to
/// resulting error.
#[derive(Debug)]
pub enum ChainError<F, S> {
    /// First reader failed.
    First(F),
    /// Second reader failed.
    Second(S),
}

impl<F, S> ChainError<F, S> {
    /// If the two errors can be converted to same type, they can be easily merged by this method.
    /// This simply performs the conversion.
    pub fn merge<E>(self) -> (r: E)
        where
            F: Into<E>,
            S: Into<E>,
        ensures
            match self {
                ChainError::First(x) => F::obeys_into_spec() ==> r == x.into_spec(),
                ChainError::Second(x) => S::obeys_into_spec() ==> r == x.into_spec(),
            },
    {
        match self {
            ChainError::First(f) => f.into(),
            ChainError::Second(s) => s.into(),
        }
    }

    /// Get `ChainError` containing references to errors.
    pub fn as_ref(&self) -> (r: ChainError<&F, &S>)
        ensures
            match *self {
                ChainError::First(x) => r matches ChainError::First(y) && *y == x,
                ChainError::Second(x) => r matches ChainError::Second(y) && *y == x,
            },
    {
        match *self {
            ChainError::First(ref f) => ChainError::First(f),
            ChainError::Second(ref s) => ChainError::Second(s),
        }
    }

    /// Get ChainError containing mutable references to errors.
    pub fn as_ref_mut(&mut self) -> (r: ChainError<&mut F, &mut S>)
        ensures
            match *old(self) {
                ChainError::First(x) => r matches ChainError::First(y) && *y == x && *final(self) == ChainError::<F, S>::First(*final(y)),
                ChainError::Second(x) => r matches ChainError::Second(y) && *y == x && *final(self) == ChainError::<F, S>::Second(*final(y)),
            },
    {
        match *self {
            ChainError::First(ref mut f) => ChainError::First(f),
            ChainError::Second(ref mut s) => ChainError::Second(s),
        }
    }
}

/// This error type indicates that operation might fail in restartible manner. The most obvious
/// case is `EINTR` returned from syscalls when a signal is delivered while doing `read`.
#[derive(Debug)]
pub enum IntrError<E> {
    /// The error wasn't interruption.
    Other(E),
    /// An operation was interrupted. This variant means that operation can be retried and it will
    /// likely succeed.
    Interrupted,
}

/// Trait for custom error types that can also represent interruption.
pub trait IntoIntrError {
    /// Type representing other error (non-interrupt).
    type NonIntr;

    /// What the conversion gives.
    spec fn spec_into_intr(self) -> IntrError<Self::NonIntr>;

    /// Performs the conversion.
    fn into_intr_error(self) -> (r: IntrError<Self::NonIntr>)
        ensures
            r == self.spec_into_intr(),
    ;
}

impl<E> IntoIntrError for IntrError<E> {
    type NonIntr = E;

    open spec fn spec_into_intr(self) -> IntrError<E> {
        self
    }

    fn into_intr_error(self) -> (r: IntrError<E>) {
        self
    }
}

/// `void::unreachable`: no value of `Void` exists, so this function is never called; nothing is
/// promised of it.
#[verifier::external_body]
fn absurd<T>(e: Void) -> T {
    void::unreachable(e)
}

impl<T> From<Void> for IntrError<T> {
    fn from(e: Void) -> (r: Self) {
        absurd(e)
    }
}

impl<T> FromSpecImpl<Void> for IntrError<T> {
    /// No value of `Void` exists, so the conversion has nothing to obey.
    open spec fn obeys_from_spec() -> bool {
        false
    }

    open spec fn from_spec(e: Void) -> Self {
        IntrError::Interrupted
    }
}

/// Error that might occur when flushing a buffered writer.
#[derive(Debug)]
pub enum BufFlushError<W, F> {
    /// Passing the buffered bytes on to the wrapped writer failed.
    Write(W),
    /// Flushing the wrapped writer failed.
    Flush(F),
}

/// Error that might occur when interacting with buf reader.
#[derive(Debug)]
pub enum BufError<B, E> {
    /// The underlying stream reached the end.
    End,
    /// Buffer itself failed.
    BufferErr(B),
    /// The underlying stream failed.
    OtherErr(E),
}

/// Error that might occur when doing operation on `ExtendFromReader`
#[derive(Debug)]
pub enum ExtendError<R, E> {
    /// Reader failed
    ReadErr(R),
    /// The type being extended failed.
    ExtendErr(E),
}

/// Error indicating that provided buffer was too small
#[derive(Debug)]
pub struct BufferOverflow;

impl BufferOverflow {
    /// The message describing this error.
    pub fn to_string(&self) -> (r: String)
        ensures
            r@ == "provided buffer was too small"@,
    {
        String::from_str("provided buffer was too small")
    }
}

/// Error returned by `write_all`: how far the writing got, and the error of the writer.
#[derive(Debug)]
pub struct WriteAllError<E> {
    /// The number of bytes that were written before the error.
    pub bytes_written: usize,
    /// The number of bytes that were not written.
    pub bytes_missing: usize,
    /// The error of the writer.
    pub error: E,
}

impl<E> WriteAllError<E> {
    /// Returns the error of the writer.
    pub fn into_inner(self) -> (r: E)
        ensures
            r == self.error,
    {
        self.error
    }
}

} // verus!
