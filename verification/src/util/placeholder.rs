//! Writing data whose beginning is only known after the rest has been written.
use vstd::prelude::*;

use crate::Write;

verus! {

/// A skipped region of a writer together with the writer for what follows it.
pub trait Placeholder {
    /// The writer for the data after the skipped region.
    type End: Write;
    /// The writer for the skipped region itself.
    type Hole;

    /// Whether a call of `end` on `self` may return `end` and leave the placeholder as `after`.
    spec fn gives_end(&self, after: &Self, end: Self::End) -> bool;

    /// Whether a call of `hole` on `self` may return `hole` and leave the placeholder as `after`.
    spec fn gives_hole(&self, after: &Self, hole: Self::Hole) -> bool;

    /// Returns the writer for the data after the skipped region.
    fn end(&mut self) -> (r: Self::End)
        ensures
            Self::gives_end(&*old(self), &*final(self), r),
    ;

    /// Returns the writer for the skipped region.
    fn hole(&mut self) -> (r: Self::Hole)
        ensures
            Self::gives_hole(&*old(self), &*final(self), r),
    ;
}

/// Sometimes when serializing data, not all information is known until rest of the data is
/// written, such as a header holding the size of the message.
///
/// When the writer is a chunk of memory, the unknown data can be skipped and written later:
/// call `insert_placeholder()`, write the rest through `end()`, and then fill the skipped data
/// through `hole()`.
pub trait InsertPlaceholder: Write {
    /// The placeholder this writer hands out.
    type Placeholder: Placeholder;

    /// Whether a call of `insert_placeholder(size)` on `self` may return `placeholder` and leave
    /// the writer as `after`.
    spec fn gives_placeholder(&self, after: &Self, size: usize, placeholder: Self::Placeholder) -> bool;

    /// Skips `size` bytes, to be written later.
    fn insert_placeholder(&mut self, size: usize) -> (r: Self::Placeholder)
        ensures
            Self::gives_placeholder(&*old(self), &*final(self), size, r),
    ;
}

} // verus!
