//! A reader that repeats a sequence of bytes forever.
use vstd::prelude::*;
use vstd::arithmetic::div_mod::{lemma_fundamental_div_mod, lemma_fundamental_div_mod_converse};
use vstd::arithmetic::mul::lemma_mul_is_commutative;

use crate::buffer::init::Uninit;
use crate::{OutBuf, Read};

verus! {

/// Reader repeating a sequence of bytes infinitely.
pub struct RepeatBytes {
    bytes: Vec<u8>,
    offset: usize,
}

/// `n` bytes of the endless repetition of `bytes`, starting at index `off` of it.
pub open spec fn cycle(bytes: Seq<u8>, off: int, n: nat) -> Seq<u8> {
    Seq::new(n, |i: int| bytes[(off + i) % (bytes.len() as int)])
}

/// Continuing the repetition at `offset`, the current index, by `c` bytes that stay within
/// `bytes`: the new bytes are `bytes[offset..offset + c]`.
proof fn lemma_cycle_step(bytes: Seq<u8>, off0: int, w: nat, offset: int, c: nat)
    requires
        bytes.len() > 0,
        0 <= off0,
        offset == (off0 + w) % (bytes.len() as int),
        offset + c <= bytes.len(),
    ensures
        cycle(bytes, off0, w + c) == cycle(bytes, off0, w) + bytes.subrange(offset, offset + c),
        (off0 + w + c) % (bytes.len() as int) == (if offset + c == bytes.len() { 0 } else { offset + c }),
{
    let m = bytes.len() as int;
    let q = (off0 + w) / m;
    lemma_fundamental_div_mod(off0 + w, m);
    lemma_mul_is_commutative(m, q);
    if offset + c == m {
        assert((q + 1) * m == q * m + m) by (nonlinear_arith);
        lemma_fundamental_div_mod_converse(off0 + w + c, m, q + 1, 0);
    } else {
        lemma_fundamental_div_mod_converse(off0 + w + c, m, q, offset + c);
    }
    let lhs = cycle(bytes, off0, w + c);
    let rhs = cycle(bytes, off0, w) + bytes.subrange(offset, offset + c);
    assert forall|i: int| 0 <= i < w + c implies lhs[i] == rhs[i] by {
        if i >= w {
            lemma_fundamental_div_mod_converse(off0 + i, m, q, offset + (i - w));
        }
    }
    assert(lhs =~= rhs);
}

impl RepeatBytes {
    #[verifier::type_invariant]
    spec fn inv(self) -> bool {
        self.offset < self.bytes@.len()
    }

    /// The repeated bytes.
    pub closed spec fn pattern(&self) -> Seq<u8> {
        self.bytes@
    }

    /// The index into the pattern of the next byte to be read.
    pub closed spec fn offset(&self) -> nat {
        self.offset as nat
    }

    /// Creates a reader repeating `bytes`, which must not be empty.
    pub fn new(bytes: Vec<u8>) -> (r: Self)
        requires
            bytes@.len() > 0,
        ensures
            r.pattern() == bytes@,
            r.offset() == 0,
    {
        RepeatBytes { bytes, offset: 0 }
    }
}

impl Read for RepeatBytes {
    type ReadError = core::convert::Infallible;
    type BufInit = Uninit;

    open spec fn read_infallible() -> bool {
        true
    }

    fn read(&mut self, buf: &mut OutBuf<Uninit>) -> (r: Result<usize, Self::ReadError>)
        ensures
            r matches Ok(n) && n == old(buf).room(),
            final(buf).filled() == old(buf).filled() + cycle(old(self).pattern(), old(self).offset() as int, old(buf).room() as nat),
            final(self).pattern() == old(self).pattern(),
            final(self).offset() == (old(self).offset() + old(buf).room()) % (old(self).pattern().len() as int),
    {
        proof {
            use_type_invariant(&*self);
        }
        let len = buf.remaining();
        let ghost start = *buf;
        let ghost off0 = self.offset as int;
        let total = self.bytes.len();
        proof {
            lemma_fundamental_div_mod_converse(off0, total as int, 0, off0);
        }
        while !buf.is_full()
            invariant
                buf.wf(),
                buf.cap() == start.cap(),
                start.pos() <= buf.pos(),
                len == start.room(),
                total == self.bytes@.len(),
                self.bytes@ == old(self).pattern(),
                off0 == old(self).offset(),
                self.offset < total,
                self.offset == (off0 + (buf.pos() - start.pos())) % (total as int),
                buf.filled() == start.filled() + cycle(self.bytes@, off0, (buf.pos() - start.pos()) as nat),
            decreases buf.room(),
        {
            let ghost before = *buf;
            let tail = vstd::slice::slice_subrange(self.bytes.as_slice(), self.offset, total);
            let copied = buf.write_slice_min(tail);
            proof {
                let w = (before.pos() - start.pos()) as nat;
                lemma_cycle_step(self.bytes@, off0, w, self.offset as int, copied as nat);
                assert(tail@.take(copied as int) =~= self.bytes@.subrange(self.offset as int, self.offset + copied));
                assert(buf.filled() =~= start.filled() + cycle(self.bytes@, off0, (buf.pos() - start.pos()) as nat));
            }
            let next = self.offset + copied;
            self.offset = if next == total { 0 } else { next };
        }
        assert(buf.filled().take(start.pos() as int) =~= start.filled());
        Ok(len)
    }

    fn retrieve_available_bytes(&self) -> (r: Option<usize>)
        ensures
            r == Some(usize::MAX),
    {
        Some(usize::MAX)
    }
}

} // verus!
