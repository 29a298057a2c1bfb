//! Reading one byte at a time.
use vstd::prelude::*;

use crate::{BufInit, Read};

verus! {

/// Represents reader as a source of single bytes.
///
/// Note: this is unbuffered, so it's advised to wrap slow readers in a buffered reader.
pub struct Bytes<R> {
    reader: R,
}

impl<R> Bytes<R> {
    /// The wrapped reader.
    pub closed spec fn reader(&self) -> R {
        self.reader
    }
}

impl<R: Read> Bytes<R> {
    /// Creates the byte source.
    pub fn new(reader: R) -> (r: Self)
        ensures
            r.reader() == reader,
    {
        Bytes { reader }
    }

    /// Reads the next byte: `None` at the end, or the error of the reader.
    pub fn next(&mut self) -> (r: Option<Result<u8, R::ReadError>>)
        ensures
            R::obeys_read_model() ==> {
                let p = old(self).reader().pending();
                match r {
                    Some(Ok(b)) => p.len() > 0 && b == p[0] && final(self).reader().pending() == p.skip(1),
                    Some(Err(_)) => final(self).reader().pending() == p,
                    None => p.len() == 0 && final(self).reader().pending() == p,
                }
            },
    {
        let mut buf = crate::buffer::new_maybe_init::<1, R::BufInit>();
        let ghost p = self.reader.pending();
        let result = self.reader.read(buf.as_out());
        match result {
            Err(e) => Some(Err(e)),
            Ok(_) => {
                let written = buf.written();
                if written.len() > 0 {
                    proof {
                        if R::obeys_read_model() {
                            assert(written@ =~= p.take(1));
                        }
                    }
                    Some(Ok(written[0]))
                } else {
                    proof {
                        if R::obeys_read_model() {
                            assert(p.skip(0) =~= p);
                        }
                    }
                    None
                }
            },
        }
    }
}

} // verus!
