//! A reader with nothing to read.
use vstd::prelude::*;

use crate::buffer::init::Uninit;
use crate::{OutBuf, Read};

verus! {

/// This reader is empty - always returns 0 from read method.
pub struct Empty;

impl Read for Empty {
    type ReadError = core::convert::Infallible;
    type BufInit = Uninit;

    open spec fn obeys_read_model() -> bool {
        true
    }

    open spec fn pending(&self) -> Seq<u8> {
        Seq::empty()
    }

    open spec fn read_infallible() -> bool {
        true
    }

    open spec fn read_outcome(
        &self,
        after: &Self,
        buf: OutBuf<Uninit>,
        buf_after: OutBuf<Uninit>,
        r: Result<usize, Self::ReadError>,
    ) -> bool {
        &&& r matches Ok(n) && n == 0
        &&& buf_after == buf
    }

    fn read(&mut self, buf: &mut OutBuf<Uninit>) -> (r: Result<usize, Self::ReadError>)
        ensures
            r matches Ok(n) && n == 0,
            *final(buf) == *old(buf),
    {
        assert(buf.filled().take(buf.pos() as int) =~= buf.filled());
        assert(buf.filled() + Seq::<u8>::empty().take(0) =~= buf.filled());
        assert(Seq::<u8>::empty().skip(0) =~= Seq::<u8>::empty());
        let r: Result<usize, Self::ReadError> = Ok(0);
        assert(Self::read_outcome(&*old(self), &*self, *old(buf), *buf, r));
        r
    }

    fn available_bytes(&self, at_least: usize) -> (b: bool)
        ensures
            b == (at_least == 0),
    {
        at_least == 0
    }

    fn retrieve_available_bytes(&self) -> (r: Option<usize>)
        ensures
            r == Some(0usize),
    {
        Some(0)
    }
}

} // verus!
