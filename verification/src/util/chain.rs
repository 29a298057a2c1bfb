//! Reading from two readers, one after the other.
use vstd::prelude::*;

use crate::error::ChainError;
use crate::{OutBuf, Read, read_effect};

verus! {

/// Chains two readers.
///
/// All reads are forwarded to the first reader until it returns end. Then all other reads are
/// forwarded to the second reader.
pub struct Chain<F, S> {
    first: F,
    second: S,
    first_finished: bool,
}

impl<F, S> Chain<F, S> {
    /// The two readers and whether the first one has finished.
    pub closed spec fn parts(&self) -> (F, S, bool) {
        (self.first, self.second, self.first_finished)
    }
}

impl<F: Read, S: Read> Chain<F, S> {
    /// Creates chain of readers.
    pub fn new(first: F, second: S) -> (r: Self)
        ensures
            r.parts() == (first, second, false),
    {
        Chain { first, second, first_finished: false }
    }
}

impl<F: Read, S: Read> Chain<F, S> {
    /// The bytes still to come from the chain: those of the second reader, preceded by those of
    /// the first while it has not finished.
    pub open spec fn chain_pending(&self) -> Seq<u8> {
        if self.parts().2 {
            self.parts().1.pending()
        } else {
            self.parts().0.pending() + self.parts().1.pending()
        }
    }
}

/// `r` relays the second reader's result `inner`.
pub open spec fn relays_second<A, B>(inner: Result<usize, B>, r: Result<usize, ChainError<A, B>>) -> bool {
    match inner {
        Ok(n) => r == Ok::<usize, ChainError<A, B>>(n),
        Err(e) => r == Err::<usize, ChainError<A, B>>(ChainError::Second(e)),
    }
}

/// One call of [`Chain::read`](Read::read) from `c` and the buffer `buf` to `after` and
/// `buf_after`, returning `r`: it relays what the inner readers return.
///
/// Once the first reader has finished, the call is one read of the second reader. Before that it
/// is one read of the first reader, whose result is returned unless it reports its end on a buffer
/// with room: then the first reader counts as finished and the same call reads the second reader.
pub open spec fn chain_read<F: Read, S: Read<BufInit = F::BufInit>>(
    c: Chain<F, S>,
    after: Chain<F, S>,
    buf: OutBuf<F::BufInit>,
    buf_after: OutBuf<F::BufInit>,
    r: Result<usize, ChainError<F::ReadError, S::ReadError>>,
) -> bool {
    let (first, second, finished) = c.parts();
    if finished {
        &&& after.parts().0 == first
        &&& after.parts().2
        &&& exists|inner: Result<usize, S::ReadError>|
            #[trigger] S::read_outcome(&second, &after.parts().1, buf, buf_after, inner) && relays_second(inner, r)
    } else {
        exists|inner: Result<usize, F::ReadError>, first_after: F, mid: OutBuf<F::BufInit>|
            {
                &&& #[trigger] F::read_outcome(&first, &first_after, buf, mid, inner)
                &&& read_effect(buf, mid, inner)
                &&& after.parts().0 == first_after
                &&& match inner {
                    Ok(l) => if l > 0 || buf.room() == 0 {
                        &&& r == Ok::<usize, ChainError<F::ReadError, S::ReadError>>(l)
                        &&& after.parts().1 == second
                        &&& !after.parts().2
                        &&& buf_after == mid
                    } else {
                        &&& after.parts().2
                        &&& exists|inner2: Result<usize, S::ReadError>|
                            #[trigger] S::read_outcome(&second, &after.parts().1, mid, buf_after, inner2) && relays_second(inner2, r)
                    },
                    Err(e) => {
                        &&& r == Err::<usize, ChainError<F::ReadError, S::ReadError>>(ChainError::First(e))
                        &&& after.parts().1 == second
                        &&& !after.parts().2
                        &&& buf_after == mid
                    },
                }
            }
    }
}

impl<F: Read, S: Read<BufInit = F::BufInit>> Read for Chain<F, S> {
    type ReadError = ChainError<F::ReadError, S::ReadError>;
    type BufInit = F::BufInit;

    open spec fn obeys_read_model() -> bool {
        F::obeys_read_model() && S::obeys_read_model()
    }

    open spec fn pending(&self) -> Seq<u8> {
        self.chain_pending()
    }

    open spec fn read_infallible() -> bool {
        F::read_infallible() && S::read_infallible()
    }

    open spec fn read_outcome(
        &self,
        after: &Self,
        buf: OutBuf<F::BufInit>,
        buf_after: OutBuf<F::BufInit>,
        r: Result<usize, ChainError<F::ReadError, S::ReadError>>,
    ) -> bool {
        chain_read(*self, *after, buf, buf_after, r)
    }

    /// Reads from the first reader until it reports its end on a buffer with room; from then on
    /// (starting with the read in which the end was reported) reads come from the second reader.
    fn read(&mut self, buf: &mut OutBuf<F::BufInit>) -> (r: Result<usize, ChainError<F::ReadError, S::ReadError>>)
        ensures
            old(self).parts().2 ==> {
                &&& final(self).parts().0 == old(self).parts().0
                &&& final(self).parts().2
                &&& (r is Err ==> r->Err_0 is Second)
            },
            old(buf).room() == 0 ==> final(self).parts().2 == old(self).parts().2,
            !old(self).parts().2 && !final(self).parts().2 ==> {
                &&& final(self).parts().1 == old(self).parts().1
                &&& (r is Err ==> r->Err_0 is First)
                &&& (old(buf).room() > 0 ==> !(r matches Ok(0)))
            },
            !old(self).parts().2 && final(self).parts().2 ==> (r is Err ==> r->Err_0 is Second),
    {
        assert(Self::read_infallible() == (F::read_infallible() && S::read_infallible()));
        assert(Self::obeys_read_model() == (F::obeys_read_model() && S::obeys_read_model()));
        let ghost start_buf = *buf;
        let ghost start = *self;
        let ghost first_after = self.first;
        let ghost first_result: Result<usize, F::ReadError> = Ok(0);
        if !self.first_finished {
            let room = buf.remaining();
            let ghost first_before = self.first.pending();
            let ghost second_before = self.second.pending();
            let res = self.first.read(buf);
            proof {
                first_after = self.first;
                first_result = res;
            }
            match res {
                Ok(l) => {
                    if l > 0 || room == 0 {
                        proof {
                            if F::obeys_read_model() && S::obeys_read_model() && room > 0 {
                                let n = l as int;
                                assert((first_before + second_before).take(n) =~= first_before.take(n));
                                assert((first_before + second_before).skip(n) =~= first_before.skip(n) + second_before);
                            }
                        }
                        let r = Ok(l);
                        assert(F::read_outcome(&start.first, &first_after, start_buf, *buf, first_result));
                        assert(F::read_outcome(&start.parts().0, &first_after, start_buf, *buf, first_result));
                        assert(chain_read(start, *self, start_buf, *buf, r));
                        assert(Self::read_outcome(&start, &*self, start_buf, *buf, r));
                        return r;
                    }
                    self.first_finished = true;
                    proof {
                        assert(buf.filled() =~= start_buf.filled());
                        if F::obeys_read_model() && S::obeys_read_model() {
                            assert(first_before + second_before =~= second_before);
                        }
                    }
                },
                Err(e) => {
                    let r = Err(ChainError::First(e));
                    assert(F::read_outcome(&start.parts().0, &first_after, start_buf, *buf, first_result));
                    assert(chain_read(start, *self, start_buf, *buf, r));
                    assert(Self::read_outcome(&start, &*self, start_buf, *buf, r));
                    return r;
                },
            }
        }
        let ghost mid_buf = *buf;
        let ghost second_start = self.second;
        let res2 = self.second.read(buf);
        let ghost second_result = res2;
        let r = match res2 {
            Ok(n) => {
                proof {
                    assert(buf.filled().take(start_buf.pos() as int) =~= start_buf.filled());
                }
                Ok(n)
            },
            Err(e) => {
                Err(ChainError::Second(e))
            },
        };
        assert(S::read_outcome(&start.parts().1, &self.parts().1, mid_buf, *buf, second_result));
        assert(relays_second(second_result, r));
        proof {
            if !start.first_finished {
                assert(F::read_outcome(&start.parts().0, &first_after, start_buf, mid_buf, first_result));
            }
        }
        assert(chain_read(start, *self, start_buf, *buf, r));
        assert(Self::read_outcome(&start, &*self, start_buf, *buf, r));
        r
    }
}

} // verus!
