//! A writer that forbids everything but writing.
use vstd::prelude::*;

use crate::util::placeholder::{InsertPlaceholder, Placeholder};
use crate::Write;
use vstd::std_specs::convert::FromSpecImpl;

verus! {

/// Forbids all operations except writes.
///
/// One use case is to pass `Vec` as writer without fear that consumer would change previously
/// written content.
pub struct WriteOnly<W>(W);

impl<W> WriteOnly<W> {
    /// The wrapped writer.
    pub closed spec fn inner(&self) -> W {
        self.0
    }
}

impl<W: Write> WriteOnly<W> {
    /// Wraps the writer.
    pub fn new(writer: W) -> (r: Self)
        ensures
            r.inner() == writer,
    {
        WriteOnly(writer)
    }
}

impl<W: Write> From<W> for WriteOnly<W> {
    fn from(writer: W) -> (r: Self) {
        WriteOnly(writer)
    }
}

impl<W: Write> FromSpecImpl<W> for WriteOnly<W> {
    open spec fn obeys_from_spec() -> bool {
        true
    }

    closed spec fn from_spec(writer: W) -> Self {
        WriteOnly(writer)
    }
}

impl<W: Write> Write for WriteOnly<W> {
    type WriteError = W::WriteError;
    type FlushError = W::FlushError;

    open spec fn obeys_write_model() -> bool {
        W::obeys_write_model()
    }

    open spec fn output(&self) -> Seq<u8> {
        self.inner().output()
    }

    open spec fn write_infallible() -> bool {
        W::write_infallible()
    }

    open spec fn flush_infallible() -> bool {
        W::flush_infallible()
    }

    open spec fn size_hint_effect(&self, after: &Self, min_bytes: usize, max_bytes: Option<usize>) -> bool {
        W::size_hint_effect(&self.inner(), &after.inner(), min_bytes, max_bytes)
    }

    open spec fn write_effect(&self, after: &Self, buf: Seq<u8>, r: Result<usize, W::WriteError>) -> bool {
        W::write_effect(&self.inner(), &after.inner(), buf, r)
    }

    fn write(&mut self, buf: &[u8]) -> (r: Result<usize, Self::WriteError>) {
        assert(Self::write_infallible() == W::write_infallible());
        let r = self.0.write(buf);
        assert(Self::write_effect(&*old(self), &*self, buf@, r));
        r
    }

    fn flush(&mut self) -> (r: Result<(), Self::FlushError>) {
        assert(Self::flush_infallible() == W::flush_infallible());
        self.0.flush()
    }

    fn size_hint(&mut self, min: usize, max: Option<usize>) {
        self.0.size_hint(min, max);
        assert(Self::size_hint_effect(&*old(self), &*self, min, max)
            == W::size_hint_effect(&old(self).inner(), &self.inner(), min, max));
    }
}

/// The placeholder of a [`WriteOnly`] writer: its end is write-only too.
pub struct WriteOnlyPlaceholder<P>(P);

impl<P> WriteOnlyPlaceholder<P> {
    /// The wrapped placeholder.
    pub closed spec fn inner(&self) -> P {
        self.0
    }
}

impl<P: Placeholder> Placeholder for WriteOnlyPlaceholder<P> {
    type End = WriteOnly<P::End>;
    type Hole = P::Hole;

    open spec fn gives_end(&self, after: &Self, end: WriteOnly<P::End>) -> bool {
        P::gives_end(&self.inner(), &after.inner(), end.inner())
    }

    open spec fn gives_hole(&self, after: &Self, hole: P::Hole) -> bool {
        P::gives_hole(&self.inner(), &after.inner(), hole)
    }

    fn end(&mut self) -> (r: Self::End) {
        WriteOnly(self.0.end())
    }

    fn hole(&mut self) -> (r: Self::Hole) {
        self.0.hole()
    }
}

impl<W: InsertPlaceholder> InsertPlaceholder for WriteOnly<W> {
    type Placeholder = WriteOnlyPlaceholder<W::Placeholder>;

    open spec fn gives_placeholder(&self, after: &Self, size: usize, placeholder: WriteOnlyPlaceholder<W::Placeholder>) -> bool {
        W::gives_placeholder(&self.inner(), &after.inner(), size, placeholder.inner())
    }

    fn insert_placeholder(&mut self, size: usize) -> (r: Self::Placeholder) {
        WriteOnlyPlaceholder(self.0.insert_placeholder(size))
    }
}

} // verus!
