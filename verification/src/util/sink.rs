//! A writer that drops everything.
use vstd::prelude::*;

use crate::Write;

verus! {

/// Silently drops everything that is written to it.
pub struct Sink;

impl Write for Sink {
    type WriteError = core::convert::Infallible;
    type FlushError = core::convert::Infallible;

    open spec fn write_infallible() -> bool {
        true
    }

    open spec fn flush_infallible() -> bool {
        true
    }

    open spec fn write_effect(&self, after: &Self, buf: Seq<u8>, r: Result<usize, core::convert::Infallible>) -> bool {
        r matches Ok(n) && n == buf.len()
    }

    fn write(&mut self, buf: &[u8]) -> (r: Result<usize, Self::WriteError>)
        ensures
            r matches Ok(n) && n == buf@.len(),
    {
        let r: Result<usize, core::convert::Infallible> = Ok(buf.len());
        assert(Self::write_effect(&*old(self), &*self, buf@, r));
        r
    }

    fn flush(&mut self) -> (r: Result<(), Self::FlushError>)
        ensures
            r is Ok,
    {
        Ok(())
    }

    fn size_hint(&mut self, _min_bytes: usize, _max_bytes: Option<usize>) {
    }
}

} // verus!
