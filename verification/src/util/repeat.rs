//! A reader that repeats one byte forever.
use vstd::prelude::*;

use crate::buffer::init::Uninit;
use crate::{OutBuf, Read};

verus! {

/// Reader that infinitely repeats a single byte.
///
/// It will never fail, and it fills every buffer it is given.
pub struct Repeat {
    byte: u8,
}

impl Repeat {
    /// Creates a reader repeating `byte`.
    pub fn new(byte: u8) -> (r: Self)
        ensures
            r.byte() == byte,
    {
        Repeat { byte }
    }

    /// The repeated byte.
    pub closed spec fn byte(&self) -> u8 {
        self.byte
    }
}

impl Read for Repeat {
    type ReadError = core::convert::Infallible;
    type BufInit = Uninit;

    open spec fn read_infallible() -> bool {
        true
    }

    open spec fn read_outcome(
        &self,
        after: &Self,
        buf: OutBuf<Uninit>,
        buf_after: OutBuf<Uninit>,
        r: Result<usize, Self::ReadError>,
    ) -> bool {
        &&& r matches Ok(n) && n == buf.room()
        &&& buf_after.filled() == buf.filled() + Seq::new(buf.room() as nat, |i: int| self.byte())
        &&& *after == *self
    }

    fn read(&mut self, buf: &mut OutBuf<Uninit>) -> (r: Result<usize, Self::ReadError>)
        ensures
            r matches Ok(n) && n == old(buf).room(),
            final(buf).filled() == old(buf).filled() + Seq::new(old(buf).room() as nat, |i: int| old(self).byte()),
            *final(self) == *old(self),
    {
        let len = buf.remaining();
        let ghost start = *buf;
        while !buf.is_full()
            invariant
                buf.wf(),
                buf.cap() == start.cap(),
                start.pos() <= buf.pos(),
                len == start.room(),
                buf.filled() == start.filled() + Seq::new((buf.pos() - start.pos()) as nat, |i: int| self.byte),
            decreases buf.room(),
        {
            let ghost before = *buf;
            buf.write_byte(self.byte);
            assert(buf.filled() =~= start.filled() + Seq::new((buf.pos() - start.pos()) as nat, |i: int| self.byte)) by {
                assert(buf.filled() =~= before.filled() + seq![self.byte]);
            }
        }
        assert(buf.filled().take(start.pos() as int) =~= start.filled());
        let r: Result<usize, Self::ReadError> = Ok(len);
        assert(Self::read_outcome(&*old(self), &*self, *old(buf), *buf, r));
        r
    }

    fn retrieve_available_bytes(&self) -> (r: Option<usize>)
        ensures
            r == Some(usize::MAX),
    {
        Some(usize::MAX)
    }
}

} // verus!
