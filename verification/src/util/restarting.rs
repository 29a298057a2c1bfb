//! Restarting operations that were interrupted.
use vstd::prelude::*;

use crate::error::{IntoIntrError, IntrError};

verus! {

/// Restarts all interrupted operations.
///
/// Read and write operations that fail with an error indicating interruption (like EINTR) are
/// restarted; the error types then no longer hold the interrupted case.
pub struct Restarting<T>(T);

impl<T> Restarting<T> {
    /// The wrapped reader or writer.
    pub closed spec fn inner(&self) -> T {
        self.0
    }

    /// Creates restarting IO.
    pub fn new(io: T) -> (r: Self)
        ensures
            r.inner() == io,
    {
        Restarting(io)
    }

    /// Converts to lower-level reader.
    pub fn into_inner(self) -> (r: T)
        ensures
            r == self.inner(),
    {
        self.0
    }

    /// Decides what to do with the outcome of one attempt: `Some` with the final result, or
    /// `None` when the attempt was interrupted and has to be made again.
    pub fn settle<S, E: IntoIntrError>(attempt: Result<S, E>) -> (r: Option<Result<S, E::NonIntr>>)
        ensures
            match attempt {
                Ok(s) => r == Some(Ok::<S, E::NonIntr>(s)),
                Err(e) => match e.spec_into_intr() {
                    IntrError::Other(x) => r == Some(Err::<S, E::NonIntr>(x)),
                    IntrError::Interrupted => r is None,
                },
            },
    {
        match attempt {
            Ok(success) => Some(Ok(success)),
            Err(e) => match e.into_intr_error() {
                IntrError::Other(e) => Some(Err(e)),
                IntrError::Interrupted => None,
            },
        }
    }
}

} // verus!
