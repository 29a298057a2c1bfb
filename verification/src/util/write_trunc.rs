//! A writer that keeps at most a given number of bytes.
use vstd::prelude::*;

use crate::error::WriteAllError;
use crate::Write;

verus! {

/// Truncates writing so that at most `n` bytes in total are written into the writer.
///
/// Excess bytes are silently dropped.
pub struct WriteTrunc<W> {
    writer: W,
    remaining: u64,
}

/// How many of `len` bytes pass when `remaining` more may be written.
pub open spec fn kept_len(len: nat, remaining: u64) -> nat {
    if len > remaining { remaining as nat } else { len }
}

/// The wrapped writer's output only grows, and by no more than the limit shrinks: so in total
/// it never receives more bytes than the limit it started with.
pub open spec fn within_budget(out_before: Seq<u8>, limit_before: u64, out_after: Seq<u8>, limit_after: u64) -> bool {
    &&& out_before.len() <= out_after.len()
    &&& out_after.take(out_before.len() as int) == out_before
    &&& out_after.len() + limit_after <= out_before.len() + limit_before
}

/// Budgets compose: over any number of calls, the wrapped writer's output grows by no more than
/// the limit the truncating writer had before the first of them.
pub proof fn budget_composes(
    out_a: Seq<u8>,
    limit_a: u64,
    out_b: Seq<u8>,
    limit_b: u64,
    out_c: Seq<u8>,
    limit_c: u64,
)
    requires
        within_budget(out_a, limit_a, out_b, limit_b),
        within_budget(out_b, limit_b, out_c, limit_c),
    ensures
        within_budget(out_a, limit_a, out_c, limit_c),
{
    assert(out_c.take(out_a.len() as int) =~= out_b.take(out_a.len() as int));
}

/// One call of [`WriteTrunc::write`] on `buf`, from the wrapped writer `writer` and the limit
/// `limit` to `writer_after` and `limit_after`, with the result `r`.
///
/// When nothing of `buf` fits, the call counts all of `buf` as written and touches nothing.
/// Otherwise the wrapped writer is given the first `kept_len` bytes once; the limit drops by the
/// count it reports, and that count is returned, or all of `buf` once the limit is used up. Its
/// error is returned as it is, with the limit unchanged.
pub open spec fn trunc_write<W: Write>(
    writer: W,
    limit: u64,
    writer_after: W,
    limit_after: u64,
    buf: Seq<u8>,
    r: Result<usize, W::WriteError>,
) -> bool {
    let t = kept_len(buf.len(), limit);
    if t == 0 {
        &&& r matches Ok(n) && n == buf.len()
        &&& writer_after == writer
        &&& limit_after == limit
    } else {
        exists|inner: Result<usize, W::WriteError>|
            {
                &&& #[trigger] W::write_effect(&writer, &writer_after, buf.take(t as int), inner)
                &&& match inner {
                    Ok(k) => {
                        &&& 0 < k <= t
                        &&& limit_after == limit - k
                        &&& r matches Ok(n) && n == (if k == limit { buf.len() } else { k as nat })
                    },
                    Err(e) => {
                        &&& r == Err::<usize, W::WriteError>(e)
                        &&& limit_after == limit
                    },
                }
            }
    }
}

/// The size hint passed on to the wrapped writer: the bounds are cut down to the bytes that may
/// still be written.
pub open spec fn truncated_hint(remaining: u64, min_bytes: usize, max_bytes: Option<usize>) -> (usize, Option<usize>) {
    if min_bytes > remaining {
        (remaining as usize, Some(remaining as usize))
    } else if remaining < usize::MAX {
        let cap = remaining as usize;
        (min_bytes, Some(match max_bytes {
            Some(m) => if m < cap { m } else { cap },
            None => cap,
        }))
    } else {
        (min_bytes, max_bytes)
    }
}

/// Computes [`truncated_hint`].
fn plan_hint(remaining: u64, min_bytes: usize, max_bytes: Option<usize>) -> (r: (usize, Option<usize>))
    ensures
        r == truncated_hint(remaining, min_bytes, max_bytes),
{
    if min_bytes as u64 > remaining {
        (remaining as usize, Some(remaining as usize))
    } else if remaining < usize::MAX as u64 {
        let cap = remaining as usize;
        let max = match max_bytes {
            Some(m) => if m < cap { m } else { cap },
            None => cap,
        };
        (min_bytes, Some(max))
    } else {
        (min_bytes, max_bytes)
    }
}

impl<W> WriteTrunc<W> {
    /// The wrapped writer.
    pub closed spec fn writer(&self) -> W {
        self.writer
    }

    /// How many more bytes may be written.
    pub closed spec fn limit(&self) -> u64 {
        self.remaining
    }
}

impl<W: Write> WriteTrunc<W> {
    /// Initializes truncate.
    pub fn new(writer: W, max_bytes: u64) -> (r: Self)
        ensures
            r.writer() == writer,
            r.limit() == max_bytes,
    {
        WriteTrunc { writer, remaining: max_bytes }
    }

    /// Returns how many bytes remain until they will be truncated.
    pub fn remaining_bytes(&self) -> (r: u64)
        ensures
            r == self.limit(),
    {
        self.remaining
    }

    /// The first bytes of `buf` that may still be written.
    fn cut<'b>(&self, buf: &'b [u8]) -> (r: &'b [u8])
        ensures
            r@ == buf@.take(kept_len(buf@.len(), self.limit()) as int),
    {
        if buf.len() as u64 > self.remaining {
            vstd::slice::slice_subrange(buf, 0, self.remaining as usize)
        } else {
            assert(buf@.take(buf@.len() as int) =~= buf@);
            buf
        }
    }
}

impl<W: Write> Write for WriteTrunc<W> {
    type WriteError = W::WriteError;
    type FlushError = W::FlushError;

    open spec fn write_infallible() -> bool {
        W::write_infallible()
    }

    open spec fn flush_infallible() -> bool {
        W::flush_infallible()
    }

    open spec fn write_effect(&self, after: &Self, buf: Seq<u8>, r: Result<usize, W::WriteError>) -> bool {
        trunc_write(self.writer(), self.limit(), after.writer(), after.limit(), buf, r)
    }

    open spec fn size_hint_effect(&self, after: &Self, min_bytes: usize, max_bytes: Option<usize>) -> bool {
        let hint = truncated_hint(self.limit(), min_bytes, max_bytes);
        &&& W::size_hint_effect(&self.writer(), &after.writer(), hint.0, hint.1)
        &&& after.limit() == self.limit()
    }

    /// Writes the bytes of `buf` that fit into the limit; the limit shrinks by what the wrapped
    /// writer reports as written. Once the limit is used up, the rest of `buf` counts as written
    /// and is dropped.
    fn write(&mut self, buf: &[u8]) -> (r: Result<usize, Self::WriteError>)
        ensures
            W::obeys_write_model() ==> within_budget(old(self).writer().output(), old(self).limit(), final(self).writer().output(), final(self).limit()),
            trunc_write(old(self).writer(), old(self).limit(), final(self).writer(), final(self).limit(), buf@, r),
            kept_len(buf@.len(), old(self).limit()) > 0 && r is Ok ==> {
                let k = old(self).limit() - final(self).limit();
                W::obeys_write_model() ==> final(self).writer().output() == old(self).writer().output() + buf@.take(k)
            },
            kept_len(buf@.len(), old(self).limit()) > 0 && r is Err ==> {
                W::obeys_write_model() ==> final(self).writer().output() == old(self).writer().output()
            },
    {
        assert(Self::write_infallible() == W::write_infallible());
        let len = buf.len();
        let part = self.cut(buf);
        let ghost o = old(self).writer().output();
        let ghost w0 = old(self).writer();
        proof {
            assert(o.take(o.len() as int) =~= o);
        }
        if part.len() == 0 {
            let r: Result<usize, W::WriteError> = Ok(len);
            assert(Self::write_effect(&*old(self), &*self, buf@, r));
            return r;
        }
        let res = self.writer.write(part);
        let ghost inner = res;
        let r = match res {
            Ok(written) => {
                self.remaining = self.remaining - written as u64;
                proof {
                    assert(part@.take(written as int) =~= buf@.take(written as int));
                    assert((o + buf@.take(written as int)).take(o.len() as int) =~= o);
                }
                if self.remaining > 0 {
                    Ok(written)
                } else {
                    Ok(len)
                }
            },
            Err(e) => Err(e),
        };
        proof {
            assert(W::write_effect(&w0, &self.writer, buf@.take(kept_len(buf@.len(), old(self).limit()) as int), inner));
        }
        assert(Self::write_effect(&*old(self), &*self, buf@, r));
        r
    }

    fn write_all(&mut self, buf: &[u8]) -> (r: Result<(), WriteAllError<Self::WriteError>>)
        ensures
            W::obeys_write_model() ==> within_budget(old(self).writer().output(), old(self).limit(), final(self).writer().output(), final(self).limit()),
            final(self).limit() == old(self).limit() - kept_len(buf@.len(), old(self).limit()),
            kept_len(buf@.len(), old(self).limit()) == 0 ==> {
                &&& r is Ok
                &&& final(self).writer() == old(self).writer()
            },
            W::obeys_write_model() ==> match r {
                Ok(_) => final(self).writer().output() == old(self).writer().output() + buf@.take(
                    kept_len(buf@.len(), old(self).limit()) as int,
                ),
                Err(e) => final(self).writer().output() == old(self).writer().output() + buf@.take(
                    e.bytes_written as int,
                ),
            },
    {
        assert(Self::write_infallible() == W::write_infallible());
        let part = self.cut(buf);
        self.remaining = self.remaining - part.len() as u64;
        proof {
            let o = old(self).writer().output();
            assert(o.take(o.len() as int) =~= o);
            assert forall|m: nat| m <= buf@.len() implies (o + buf@.take(m as int)).take(o.len() as int) == o by {
                assert((o + buf@.take(m as int)).take(o.len() as int) =~= o);
            }
        }
        if part.len() > 0 {
            let r = self.writer.write_all(part);
            proof {
                if r is Err {
                    let k = r->Err_0.bytes_written as int;
                    assert(part@.take(k) =~= buf@.take(k));
                }
            }
            r
        } else {
            Ok(())
        }
    }

    fn flush(&mut self) -> (r: Result<(), Self::FlushError>)
        ensures
            W::obeys_write_model() ==> within_budget(old(self).writer().output(), old(self).limit(), final(self).writer().output(), final(self).limit()),
            final(self).limit() == old(self).limit(),
            W::obeys_write_model() ==> final(self).writer().output() == old(self).writer().output(),
    {
        assert(Self::flush_infallible() == W::flush_infallible());
        let r = self.writer.flush();
        proof {
            let o = old(self).writer().output();
            assert(o.take(o.len() as int) =~= o);
        }
        r
    }

    fn size_hint(&mut self, min_bytes: usize, max_bytes: Option<usize>)
        ensures
            W::obeys_write_model() ==> within_budget(old(self).writer().output(), old(self).limit(), final(self).writer().output(), final(self).limit()),
            final(self).limit() == old(self).limit(),
            W::obeys_write_model() ==> final(self).writer().output() == old(self).writer().output(),
    {
        let (hint_min, hint_max) = plan_hint(self.remaining, min_bytes, max_bytes);
        self.writer.size_hint(hint_min, hint_max);
        proof {
            let o = old(self).writer().output();
            assert(o.take(o.len() as int) =~= o);
        }
        assert(Self::size_hint_effect(&*old(self), &*self, min_bytes, max_bytes));
    }

    fn uses_size_hint(&self) -> (r: bool) {
        self.writer.uses_size_hint()
    }
}

} // verus!
