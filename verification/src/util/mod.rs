//! Various generic utilities related to IO.
use vstd::prelude::*;

mod bytes;
mod chain;
mod empty;
mod placeholder;
mod repeat;
mod repeat_bytes;
mod restarting;
mod sink;
mod write_only;
mod write_trunc;

pub use self::bytes::Bytes;
pub use self::chain::Chain;
pub use self::empty::Empty;
pub use self::placeholder::{InsertPlaceholder, Placeholder};
pub use self::repeat::Repeat;
pub use self::repeat_bytes::{RepeatBytes, cycle};
pub use self::restarting::Restarting;
pub use self::sink::Sink;
pub use self::write_only::{WriteOnly, WriteOnlyPlaceholder};
pub use self::write_trunc::WriteTrunc;

use crate::error::IOError;
use crate::ext::{ReadExt, ReadResult};
use crate::{Read, Write};

verus! {

/// The size of the buffer that [`copy`] reads into.
const DEFAULT_BUF_SIZE: usize = 8 * 1024;

/// Copies the entire contents of a reader into a writer.
///
/// This function continuously reads data from reader and writes it into writer until reader
/// returns EOF, and returns the total number of bytes copied. It returns an error immediately if
/// any call to `read` or `write` returns one; interrupted calls are not restarted. Should the
/// count of bytes reach `u64::MAX`, copying stops there and `u64::MAX` is returned.
pub fn copy<R: Read, W: Write>(reader: &mut R, writer: &mut W) -> (r: Result<
    u64,
    IOError<R::ReadError, W::WriteError>,
>)
    ensures
        R::read_infallible() ==> !(r matches Err(IOError::Read(_))),
        W::write_infallible() ==> !(r matches Err(IOError::Write(_))),
        R::obeys_read_model() && W::obeys_write_model() ==> (r matches Ok(n) ==> {
            let p = R::pending(&*old(reader));
            let c = p.len() - R::pending(&*final(reader)).len();
            &&& R::pending(&*final(reader)) == p.skip(c)
            &&& W::output(&*final(writer)) == W::output(&*old(writer)) + p.take(c)
            &&& (n < u64::MAX ==> c == n && R::pending(&*final(reader)).len() == 0)
            &&& (n == u64::MAX ==> c >= u64::MAX)
        }),
        R::obeys_read_model() && W::obeys_write_model() && R::read_infallible() && W::write_infallible()
            && R::pending(&*old(reader)).len() < u64::MAX ==> {
            &&& r matches Ok(n) && n == R::pending(&*old(reader)).len()
            &&& W::output(&*final(writer)) == W::output(&*old(writer)) + R::pending(&*old(reader))
            &&& R::pending(&*final(reader)).len() == 0
        },
{
    let mut buf = crate::buffer::new_maybe_init::<DEFAULT_BUF_SIZE, R::BufInit>();
    let mut written: u64 = 0;
    let ghost copied: Seq<u8> = Seq::empty();
    loop
        invariant
            buf.wf(),
            buf.out_view().cap() == DEFAULT_BUF_SIZE,
            buf.out_view().pos() == 0,
            R::obeys_read_model() && W::obeys_write_model() ==> {
                &&& written == copied.len()
                &&& W::output(&*writer) == W::output(&*old(writer)) + copied
                &&& R::pending(&*old(reader)) == copied + R::pending(&*reader)
            },
        decreases u64::MAX - written,
    {
        let ghost before_pending = R::pending(&*reader);
        let ghost before_output = W::output(&*writer);
        let n = match reader.read_ext(&mut buf) {
            Err(e) => {
                return Err(IOError::Read(e));
            },
            Ok(ReadResult::End) => {
                proof {
                    if R::obeys_read_model() && W::obeys_write_model() {
                        let p = R::pending(&*old(reader));
                        assert(p.skip(copied.len() as int) =~= R::pending(&*reader));
                        assert(p.take(copied.len() as int) =~= copied);
                    }
                }
                return Ok(written);
            },
            Ok(ReadResult::Bytes(b)) => {
                match writer.write_all(b) {
                    Err(e) => {
                        return Err(IOError::Write(e.into_inner()));
                    },
                    Ok(()) => {},
                }
                proof {
                    if R::obeys_read_model() && W::obeys_write_model() {
                        assert(before_pending =~= b@ + R::pending(&*reader));
                        copied = copied + b@;
                        assert(W::output(&*writer) =~= W::output(&*old(writer)) + copied);
                        assert(R::pending(&*old(reader)) =~= copied + R::pending(&*reader));
                    }
                }
                b.len() as u64
            },
        };
        if written > u64::MAX - n {
            proof {
                if R::obeys_read_model() && W::obeys_write_model() {
                    let p = R::pending(&*old(reader));
                    assert(p.skip(copied.len() as int) =~= R::pending(&*reader));
                    assert(p.take(copied.len() as int) =~= copied);
                }
            }
            return Ok(u64::MAX);
        }
        written = written + n;
        buf.reset();
    }
}

} // verus!
