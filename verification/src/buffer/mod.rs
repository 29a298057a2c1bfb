//! Byte buffers that track how much of their storage has been filled.
//!
//! [`Buffer`] owns a byte storage together with a write position. [`OutBuf`] is the write-only
//! part of it that is handed out to sources of bytes (such as readers): it lets them append bytes
//! after the position but never read or change the bytes already written.
//!
//! The type parameter records what is known about the initializedness of the storage, see
//! [`init`].
use vstd::prelude::*;

pub mod init;

pub use self::init::{BufInit, Combine, FromUninit};
use self::init::{Dynamic, Init, Uninit};

verus! {

/// `dst` with the bytes of `src` placed at `at`.
pub open spec fn spliced(dst: Seq<u8>, at: int, src: Seq<u8>) -> Seq<u8> {
    dst.take(at) + src + dst.skip(at + src.len())
}

/// Copies `src` into `dst` starting at index `at`.
fn copy_into(dst: &mut Vec<u8>, at: usize, src: &[u8])
    requires
        at + src@.len() <= old(dst)@.len(),
    ensures
        final(dst)@ == spliced(old(dst)@, at as int, src@),
{
    let mut i: usize = 0;
    let n = dst.len();
    while i < src.len()
        invariant
            at + src@.len() <= dst@.len(),
            dst@.len() == n,
            dst@.len() == old(dst)@.len(),
            i <= src@.len(),
            forall|j: int| 0 <= j < at ==> dst@[j] == old(dst)@[j],
            forall|j: int| at <= j < at + i ==> dst@[j] == src@[j - at],
            forall|j: int| at + src@.len() <= j < dst@.len() ==> dst@[j] == old(dst)@[j],
        decreases src@.len() - i,
    {
        dst.set(at + i, src[i]);
        i += 1;
    }
    assert(dst@ =~= spliced(old(dst)@, at as int, src@));
}

/// Type-erased, write-only view of a [`Buffer`].
///
/// It is handed out to sources of bytes to be filled: bytes can only be appended after the
/// current position, and the already written part can be neither read nor changed through it.
pub struct OutBuf<I: BufInit> {
    bytes: Vec<u8>,
    position: usize,
    init: I,
}

impl<I: BufInit> OutBuf<I> {
    /// The whole storage.
    pub closed spec fn storage(&self) -> Seq<u8> {
        self.bytes@
    }

    /// The write position: the number of bytes written so far.
    pub closed spec fn pos(&self) -> nat {
        self.position as nat
    }

    /// What the initializedness marker records.
    pub closed spec fn init_state(&self) -> Option<usize> {
        self.init.spec_init_len()
    }

    /// The number of bytes the storage can hold.
    pub open spec fn cap(&self) -> nat {
        self.storage().len()
    }

    /// The bytes written so far.
    pub open spec fn filled(&self) -> Seq<u8> {
        self.storage().take(self.pos() as int)
    }

    /// The number of bytes that can still be written.
    pub open spec fn room(&self) -> int {
        self.cap() - self.pos()
    }

    /// Well-formedness: the position lies within the storage, and so does the tracked
    /// initialized length.
    pub open spec fn wf(&self) -> bool {
        &&& self.pos() <= self.cap() <= usize::MAX
        &&& (self.init_state() matches Some(k) ==> k <= self.cap())
    }

    /// `self` is `old` with `data` appended at the position.
    pub open spec fn appended(&self, old: Self, data: Seq<u8>) -> bool {
        &&& self.storage() == spliced(old.storage(), old.pos() as int, data)
        &&& self.pos() == old.pos() + data.len()
        &&& self.init_state() == old.init_state()
    }

    /// Creates a well-formed `OutBuf` from its parts.
    pub(crate) fn from_parts(bytes: Vec<u8>, position: usize, init: I) -> (r: Self)
        requires
            position <= bytes@.len(),
            init.spec_init_len() matches Some(k) ==> k <= bytes@.len(),
        ensures
            r.wf(),
            r.storage() == bytes@,
            r.pos() == position,
            r.init_state() == init.spec_init_len(),
    {
        let _ = bytes.len();
        OutBuf { bytes, position, init }
    }

    /// Hands this `OutBuf` to `f`, which appends to it and gives it back, and returns the bytes
    /// that `f` appended together with what `f` returned.
    pub fn scoped<T, F: FnOnce(OutBuf<I>) -> (OutBuf<I>, T)>(&mut self, f: F) -> (r: (Vec<u8>, T))
        requires
            old(self).wf(),
            call_requires(f, (*old(self),)),
            forall|res: (OutBuf<I>, T)|
                #[trigger] call_ensures(f, (*old(self),), res) ==> {
                    &&& res.0.wf()
                    &&& old(self).pos() <= res.0.pos()
                },
        ensures
            exists|back: OutBuf<I>|
                {
                    &&& #[trigger] call_ensures(f, (*old(self),), (back, r.1))
                    &&& r.0@ == back.filled().skip(old(self).pos() as int)
                    &&& *final(self) == back
                },
    {
        let start = self.position;
        let mut lent = OutBuf { bytes: Vec::new(), position: 0, init: I::new_unchecked(0) };
        core::mem::swap(&mut lent, self);
        let ghost lent_view = lent;
        let (back, result) = f(lent);
        let ghost returned = back;
        let appended = vstd::slice::slice_subrange(back.bytes.as_slice(), start, back.position);
        let written = vstd::slice::slice_to_vec(appended);
        assert(written@ =~= returned.filled().skip(lent_view.pos() as int));
        *self = back;
        let r = (written, result);
        assert(call_ensures(f, (lent_view,), (returned, r.1)) && r.0@ == returned.filled().skip(lent_view.pos() as int));
        r
    }

    /// Shortens the borrow of this `OutBuf`.
    ///
    /// This does the same thing `&mut *x` would do on a native reference.
    pub fn reborrow(&mut self) -> (r: &mut Self)
        ensures
            *r == *old(self),
            *final(self) == *final(r),
    {
        self
    }

    /// Returns the number of bytes available for writing.
    pub fn remaining(&self) -> (r: usize)
        requires
            self.wf(),
        ensures
            r == self.room(),
    {
        self.bytes.len() - self.position
    }

    /// Returns true if no more bytes can be written to the buffer.
    pub fn is_full(&self) -> (r: bool)
        requires
            self.wf(),
        ensures
            r == (self.room() == 0),
    {
        self.remaining() == 0
    }

    /// Returns the part of the storage after the position, for a low-level reader to fill.
    ///
    /// Bytes stored here count as written only after a call of [`Self::advance_unchecked`].
    pub fn out_bytes(&mut self) -> (r: &mut [u8])
        requires
            old(self).wf(),
        ensures
            r@ == old(self).storage().skip(old(self).pos() as int),
            final(self).storage() == old(self).storage().take(old(self).pos() as int) + final(r)@,
            final(self).pos() == old(self).pos(),
            final(self).init_state() == old(self).init_state(),
    {
        let position = self.position;
        let whole = self.bytes.as_mut_slice();
        let (_, tail) = whole.split_at_mut(position);
        tail
    }

    /// Marks `amount` bytes after the position as written.
    ///
    /// The bytes are those already in the storage, for example stored through
    /// [`Self::out_bytes`].
    pub fn advance_unchecked(&mut self, amount: usize)
        requires
            old(self).wf(),
            amount <= old(self).room(),
        ensures
            final(self).wf(),
            final(self).storage() == old(self).storage(),
            final(self).pos() == old(self).pos() + amount,
            final(self).init_state() == old(self).init_state(),
    {
        self.position = self.position + amount;
    }

    /// Writes a byte slice into the buffer and advances the position by its length.
    ///
    /// The slice must fit into the remaining space.
    pub fn write_slice(&mut self, bytes: &[u8])
        requires
            old(self).wf(),
            bytes@.len() <= old(self).room(),
        ensures
            final(self).wf(),
            final(self).appended(*old(self), bytes@),
    {
        let position = self.position;
        copy_into(&mut self.bytes, position, bytes);
        self.position = position + bytes.len();
    }

    /// Writes as many bytes from the slice as fit into the buffer and returns their number.
    ///
    /// Unlike [`Self::write_slice`] it truncates the slice instead of failing.
    pub fn write_slice_min(&mut self, bytes: &[u8]) -> (n: usize)
        requires
            old(self).wf(),
        ensures
            final(self).wf(),
            n == (if bytes@.len() <= old(self).room() { bytes@.len() as int } else { old(self).room() }),
            final(self).appended(*old(self), bytes@.take(n as int)),
    {
        let room = self.remaining();
        let to_write = if bytes.len() <= room { bytes.len() } else { room };
        if to_write == 1 {
            self.write_byte(bytes[0]);
            assert(bytes@.take(1) =~= seq![bytes@[0]]);
        } else {
            let part = vstd::slice::slice_subrange(bytes, 0, to_write);
            self.write_slice(part);
        }
        to_write
    }

    /// Writes a single byte into the buffer and advances the position by one.
    ///
    /// The buffer must not be full.
    pub fn write_byte(&mut self, byte: u8)
        requires
            old(self).wf(),
            old(self).room() > 0,
        ensures
            final(self).wf(),
            final(self).appended(*old(self), seq![byte]),
    {
        let position = self.position;
        self.bytes.set(position, byte);
        self.position = position + 1;
        assert(self.bytes@ =~= spliced(old(self).storage(), old(self).pos() as int, seq![byte]));
    }

    /// Zeroes the part of the storage that is not known to be initialized, and then records the
    /// whole storage as initialized.
    pub(crate) fn perform_zeroing(&mut self)
        requires
            old(self).wf(),
        ensures
            final(self).wf(),
            final(self).pos() == old(self).pos(),
            final(self).storage() == zeroed_storage(old(self).storage(), old(self).pos(), old(self).init_state()),
            final(self).init_state() == zeroed_init_state(old(self).storage(), old(self).pos(), old(self).init_state(), I::spec_is_dynamic()),
    {
        match self.init.init_len() {
            Some(initialized_len) => {
                let whole_len = self.bytes.len();
                let start = if initialized_len > self.position { initialized_len } else { self.position };
                let start = if start < whole_len { start } else { whole_len };
                if start < whole_len {
                    let mut i = start;
                    while i < whole_len
                        invariant
                            start <= i <= whole_len,
                            self.bytes@.len() == whole_len,
                            whole_len == old(self).storage().len(),
                            self.position == old(self).position,
                            self.init == old(self).init,
                            forall|j: int| 0 <= j < start ==> self.bytes@[j] == old(self).storage()[j],
                            forall|j: int| start <= j < i ==> self.bytes@[j] == 0u8,
                            forall|j: int| i <= j < whole_len ==> self.bytes@[j] == old(self).storage()[j],
                        decreases whole_len - i,
                    {
                        self.bytes.set(i, 0u8);
                        i = i + 1;
                    }
                    self.init.set_init(whole_len);
                    assert(self.bytes@ =~= zeroed_storage(old(self).storage(), old(self).pos(), old(self).init_state()));
                }
            },
            None => {},
        }
    }

    /// Converts into a buffer with the marker `T`. When `T` needs initialized storage and this
    /// marker does not guarantee it, the part not known to be initialized is zeroed first.
    fn uncombine<T: BufInit>(self) -> (r: OutBuf<T>)
        requires
            self.wf(),
        ensures
            r.wf(),
            r.pos() == self.pos(),
            r.storage() == (if T::spec_needs_init() && !I::spec_needs_init() {
                zeroed_storage(self.storage(), self.pos(), self.init_state())
            } else {
                self.storage()
            }),
    {
        let mut this = self;
        if T::needs_init() && !I::needs_init() {
            this.perform_zeroing();
        }
        let init_len = match this.init.init_len() {
            Some(k) => k,
            None => this.bytes.len(),
        };
        proof {
            T::lemma_init_len_for(init_len);
        }
        OutBuf { bytes: this.bytes, position: this.position, init: T::new_unchecked(init_len) }
    }

    /// Casts this buffer's initializedness into the left operand of the `Combine` trait that
    /// produced it, initializing the storage if that is required.
    pub fn uncombine_left<L, R>(self) -> (r: OutBuf<L>)
        where
            L: BufInit + Combine<R, Combined = I>,
            R: BufInit,
        requires
            self.wf(),
        ensures
            r.wf(),
            r.pos() == self.pos(),
            r.storage() == (if L::spec_needs_init() && !I::spec_needs_init() {
                zeroed_storage(self.storage(), self.pos(), self.init_state())
            } else {
                self.storage()
            }),
    {
        self.uncombine::<L>()
    }

    /// Casts this buffer's initializedness into the right operand of the `Combine` trait that
    /// produced it, initializing the storage if that is required.
    pub fn uncombine_right<L, R>(self) -> (r: OutBuf<R>)
        where
            L: BufInit + Combine<R, Combined = I>,
            R: BufInit,
        requires
            self.wf(),
        ensures
            r.wf(),
            r.pos() == self.pos(),
            r.storage() == (if R::spec_needs_init() && !I::spec_needs_init() {
                zeroed_storage(self.storage(), self.pos(), self.init_state())
            } else {
                self.storage()
            }),
    {
        self.uncombine::<R>()
    }

    /// Converts the buffer into one whose marker gives no guarantee.
    pub fn into_uninit(self) -> (r: OutBuf<Uninit>)
        requires
            self.wf(),
        ensures
            r.wf(),
            r.storage() == self.storage(),
            r.pos() == self.pos(),
    {
        OutBuf { bytes: self.bytes, position: self.position, init: Uninit::new(0) }
    }

    /// Zeroes the uninitialized part of the buffer and converts it into an `Init` one.
    pub fn zeroing_into_init(self) -> (r: OutBuf<Init>)
        requires
            self.wf(),
        ensures
            r.wf(),
            r.pos() == self.pos(),
            r.storage() == zeroed_storage(self.storage(), self.pos(), self.init_state()),
    {
        let mut this = self;
        this.perform_zeroing();
        OutBuf { bytes: this.bytes, position: this.position, init: Init::new() }
    }
}

/// The storage after zeroing everything from the initialized (or written) length on.
pub open spec fn zeroed_storage(storage: Seq<u8>, pos: nat, init: Option<usize>) -> Seq<u8> {
    match init {
        Some(k) => {
            let start = if k > pos { k as int } else { pos as int };
            if start < storage.len() {
                storage.take(start) + Seq::new((storage.len() - start) as nat, |j: int| 0u8)
            } else {
                storage
            }
        },
        None => storage,
    }
}

/// The tracked initialized length after zeroing.
pub open spec fn zeroed_init_state(storage: Seq<u8>, pos: nat, init: Option<usize>, dynamic: bool) -> Option<usize> {
    match init {
        Some(k) => {
            let start = if k > pos { k as int } else { pos as int };
            if start < storage.len() && dynamic {
                Some(storage.len() as usize)
            } else {
                init
            }
        },
        None => init,
    }
}

impl OutBuf<Init> {
    /// Returns the part of the storage after the position as an initialized mutable slice.
    ///
    /// Reading from it is still a bad idea; it is provided for legacy code that needs `&mut [u8]`.
    pub fn bytes_mut(&mut self) -> (r: &mut [u8])
        requires
            old(self).wf(),
        ensures
            r@ == old(self).storage().skip(old(self).pos() as int),
            final(self).storage() == old(self).storage().take(old(self).pos() as int) + final(r)@,
            final(self).pos() == old(self).pos(),
            final(self).init_state() == old(self).init_state(),
    {
        self.out_bytes()
    }

    /// Advances the buffer position by `amount` bytes.
    ///
    /// The amount must not move the position past the end of the buffer.
    pub fn advance(&mut self, amount: usize)
        requires
            old(self).wf(),
            amount <= old(self).room(),
        ensures
            final(self).wf(),
            final(self).storage() == old(self).storage(),
            final(self).pos() == old(self).pos() + amount,
            final(self).init_state() == old(self).init_state(),
    {
        self.advance_unchecked(amount);
    }
}

/// Buffer of bytes with a write position.
///
/// The bytes before the position are the written ones; the rest is space for writing through
/// [`Buffer::as_out`].
pub struct Buffer<I: BufInit> {
    out: OutBuf<I>,
}

impl<I: BufInit> Buffer<I> {
    /// The write-only part of the buffer.
    pub closed spec fn out_view(&self) -> OutBuf<I> {
        self.out
    }

    /// Well-formedness of the buffer.
    pub open spec fn wf(&self) -> bool {
        self.out_view().wf()
    }

    /// The bytes written so far.
    pub open spec fn written_view(&self) -> Seq<u8> {
        self.out_view().filled()
    }

    pub(crate) fn from_out(out: OutBuf<I>) -> (r: Self)
        ensures
            r.out_view() == out,
    {
        Buffer { out }
    }

    /// Returns the maximum number of bytes the buffer can store.
    pub fn capacity(&self) -> (r: usize)
        ensures
            r == self.out_view().cap(),
    {
        self.out.bytes.len()
    }

    /// Returns the write position.
    pub(crate) fn position(&self) -> (r: usize)
        ensures
            r == self.out_view().pos(),
    {
        self.out.position
    }

    /// Returns the write-only reference to the buffer.
    ///
    /// This is the primary interface for writing into the buffer and is intended to be passed to
    /// functions that fill the buffer with bytes.
    pub fn as_out(&mut self) -> (r: &mut OutBuf<I>)
        ensures
            *r == old(self).out_view(),
            final(self).out_view() == *final(r),
    {
        &mut self.out
    }

    /// Returns the space after the written part.
    pub fn out_bytes(&mut self) -> (r: &mut [u8])
        requires
            old(self).wf(),
        ensures
            r@ == old(self).out_view().storage().skip(old(self).out_view().pos() as int),
            final(self).out_view().storage() == old(self).out_view().storage().take(
                old(self).out_view().pos() as int,
            ) + final(r)@,
            final(self).out_view().pos() == old(self).out_view().pos(),
            final(self).out_view().init_state() == old(self).out_view().init_state(),
    {
        self.out.out_bytes()
    }

    /// Returns the filled part of the buffer.
    pub fn written(&self) -> (r: &[u8])
        requires
            self.wf(),
        ensures
            r@ == self.written_view(),
    {
        vstd::slice::slice_subrange(self.out.bytes.as_slice(), 0, self.out.position)
    }

    /// Returns the filled part of the buffer as a mutable slice.
    pub fn written_mut(&mut self) -> (r: &mut [u8])
        requires
            old(self).wf(),
        ensures
            r@ == old(self).written_view(),
            final(self).out_view().storage() == final(r)@ + old(self).out_view().storage().skip(
                old(self).out_view().pos() as int,
            ),
            final(self).out_view().pos() == old(self).out_view().pos(),
            final(self).out_view().init_state() == old(self).out_view().init_state(),
    {
        let position = self.out.position;
        let whole = self.out.bytes.as_mut_slice();
        let (head, _) = whole.split_at_mut(position);
        head
    }

    /// Decomposes the buffer into its storage and position.
    pub fn into_parts(self) -> (r: (Vec<u8>, usize))
        ensures
            r.0@ == self.out_view().storage(),
            r.1 == self.out_view().pos(),
    {
        (self.out.bytes, self.out.position)
    }

    /// Sets the position to the beginning (0).
    pub fn reset(&mut self)
        requires
            old(self).wf(),
        ensures
            final(self).wf(),
            final(self).out_view().pos() == 0,
            final(self).out_view().storage() == old(self).out_view().storage(),
            final(self).out_view().init_state() == raised_init_len_of(old(self).out_view()),
    {
        let position = self.out.position;
        self.out.init.update_min(position);
        self.out.position = 0;
    }

    /// Rolls back the position by `count` bytes.
    ///
    /// `count` must not exceed the position.
    pub fn rewind(&mut self, count: usize)
        requires
            old(self).wf(),
            count <= old(self).out_view().pos(),
        ensures
            final(self).wf(),
            final(self).out_view().pos() == old(self).out_view().pos() - count,
            final(self).out_view().storage() == old(self).out_view().storage(),
            final(self).out_view().init_state() == raised_init_len_of(old(self).out_view()),
    {
        let position = self.out.position;
        self.out.init.update_min(position);
        self.out.position = position - count;
    }

    /// Zeroes the buffer **if required** and converts it into an initialized buffer.
    pub fn into_init(self) -> (r: Buffer<Init>)
        requires
            self.wf(),
        ensures
            r.wf(),
            r.out_view().pos() == self.out_view().pos(),
            r.out_view().storage() == zeroed_storage(
                self.out_view().storage(),
                self.out_view().pos(),
                self.out_view().init_state(),
            ),
    {
        Buffer { out: self.out.zeroing_into_init() }
    }

    /// Converts the buffer into one that tracks its initializedness at run time.
    pub fn into_dynamic(self) -> (r: Buffer<Dynamic>)
        requires
            self.wf(),
        ensures
            r.wf(),
            r.out_view().pos() == self.out_view().pos(),
            r.out_view().storage() == self.out_view().storage(),
            r.out_view().init_state() == Some(
                match self.out_view().init_state() {
                    Some(k) => k,
                    None => self.out_view().cap() as usize,
                },
            ),
    {
        let init_len = match self.out.init.init_len() {
            Some(k) => k,
            None => self.out.bytes.len(),
        };
        let init = Dynamic::new(init_len);
        Buffer { out: OutBuf { bytes: self.out.bytes, position: self.out.position, init } }
    }

    /// Converts the buffer into its written part.
    pub fn into_init_slice(self) -> (r: Vec<u8>)
        requires
            self.wf(),
        ensures
            r@ == self.written_view(),
    {
        let mut bytes = self.out.bytes;
        bytes.truncate(self.out.position);
        bytes
    }

    /// Creates a buffer over initialized storage, with the position at 0.
    pub fn new_from_init(bytes: Vec<u8>) -> (r: Self)
        ensures
            r.wf(),
            r.out_view().storage() == bytes@,
            r.out_view().pos() == 0,
            r.out_view().init_state() == I::spec_init_len_for(bytes@.len() as usize),
    {
        let len = bytes.len();
        proof { I::lemma_init_len_for(len); }
        Buffer { out: OutBuf { bytes, position: 0, init: I::new_unchecked(len) } }
    }

    /// Creates a buffer over the storage with the position at 0, whatever the marker.
    ///
    /// The storage of this library is always initialized, so nothing needs to be zeroed.
    pub fn new_maybe_init(bytes: Vec<u8>) -> (r: Self)
        ensures
            r.wf(),
            r.out_view().storage() == bytes@,
            r.out_view().pos() == 0,
            r.out_view().init_state() == I::spec_init_len_for(bytes@.len() as usize),
    {
        Self::new_from_init(bytes)
    }
}

impl Buffer<Uninit> {
    /// Whether the buffer is well-formed.
    pub(crate) fn is_wf(&self) -> (r: bool)
        ensures
            r == self.wf(),
            self.out_view().init_state() == Some(0usize),
            self.out_view().cap() <= usize::MAX,
    {
        let _ = self.out.bytes.len();
        self.out.position <= self.out.bytes.len()
    }
}

impl<I: FromUninit> Buffer<I> {
    /// Creates a buffer over the storage with the position at 0.
    ///
    /// This can be used to create either a `Dynamic` or an `Uninit` buffer.
    pub fn new(bytes: Vec<u8>) -> (r: Self)
        ensures
            r.wf(),
            r.out_view().storage() == bytes@,
            r.out_view().pos() == 0,
            r.out_view().init_state() == I::spec_init_len_for(bytes@.len() as usize),
    {
        let len = bytes.len();
        proof { I::lemma_init_len_for(len); }
        Buffer { out: OutBuf { bytes, position: 0, init: I::new(len) } }
    }
}

/// The tracked initialized length after recording the current position.
pub open spec fn raised_init_len_of<I: BufInit>(out: OutBuf<I>) -> Option<usize> {
    init::raised_init_len(out.init_state(), out.pos() as usize, I::spec_is_dynamic())
}

/// Creates storage of `len` zero bytes that no marker counts as initialized.
///
/// No allocation can hold more than `isize::MAX` bytes.
fn fresh_out<I: BufInit>(len: usize) -> (r: OutBuf<I>)
    requires
        len <= isize::MAX,
    ensures
        r.wf(),
        r.storage() == Seq::new(len as nat, |j: int| 0u8),
        r.pos() == 0,
        r.init_state() == I::spec_init_len_for(0),
{
    let bytes: Vec<u8> = vec![0u8; len];
    proof { I::lemma_init_len_for(0); }
    let out = OutBuf { bytes, position: 0, init: I::new_unchecked(0) };
    assert(out.bytes@ =~= Seq::new(len as nat, |j: int| 0u8));
    out
}

/// Creates a buffer of `N` bytes with no initializedness guarantee.
pub fn new_uninit<const N: usize>() -> (r: Buffer<Uninit>)
    requires
        N <= isize::MAX,
    ensures
        r.wf(),
        r.out_view().cap() == N,
        r.out_view().pos() == 0,
{
    Buffer { out: fresh_out(N) }
}

/// Creates a buffer of `N` bytes for any marker, initializing it if the marker requires it.
pub fn new_maybe_init<const N: usize, I: BufInit>() -> (r: Buffer<I>)
    requires
        N <= isize::MAX,
    ensures
        r.wf(),
        r.out_view().storage() == Seq::new(N as nat, |j: int| 0u8),
        r.out_view().pos() == 0,
        r.out_view().init_state() == I::spec_init_len_for(0),
{
    Buffer { out: fresh_out(N) }
}

/// Creates a heap buffer of `capacity` bytes with no initializedness guarantee.
pub fn new_uninit_boxed_slice(capacity: usize) -> (r: Buffer<Uninit>)
    requires
        capacity <= isize::MAX,
    ensures
        r.wf(),
        r.out_view().cap() == capacity,
        r.out_view().pos() == 0,
{
    Buffer { out: fresh_out(capacity) }
}

/// Creates a heap buffer of `capacity` bytes, initializing it if required.
pub fn new_maybe_init_boxed_slice(capacity: usize) -> (r: Buffer<Uninit>)
    requires
        capacity <= isize::MAX,
    ensures
        r.wf(),
        r.out_view().storage() == Seq::new(capacity as nat, |j: int| 0u8),
        r.out_view().pos() == 0,
{
    Buffer { out: fresh_out(capacity) }
}

/// Creates a buffer of `len` zero bytes for a source of bytes with the marker `I`.
pub(crate) fn zeroed_out<I: BufInit>(len: usize) -> (r: OutBuf<I>)
    requires
        len <= isize::MAX,
    ensures
        r.wf(),
        r.storage() == Seq::new(len as nat, |j: int| 0u8),
        r.pos() == 0,
{
    fresh_out(len)
}

/// `Vec::capacity`: how many elements the vector can hold without reallocating. It is never less
/// than the length, and a vector of bytes never holds more than `isize::MAX` bytes; the allocator
/// decides the rest.
#[verifier::external_body]
pub(crate) fn vec_capacity(vec: &Vec<u8>) -> (r: usize)
    ensures
        vec@.len() <= r <= isize::MAX,
{
    vec.capacity()
}

/// Lends the spare capacity of `vec` (`capacity() - len()` bytes, zeroed) to `fun` as an `OutBuf`
/// with nothing written yet, and appends to `vec` the bytes written into the `OutBuf` that `fun`
/// hands back. Returns what `fun` returns besides.
///
/// What is appended fits into the spare capacity, so the vector does not reallocate.
pub fn with_vec_as_out_buf<I: BufInit, T, F: FnOnce(OutBuf<I>) -> (OutBuf<I>, T)>(
    vec: &mut Vec<u8>,
    fun: F,
) -> (r: T)
    requires
        forall|o: OutBuf<I>| o.wf() && o.pos() == 0 ==> call_requires(fun, (o,)),
        forall|o: OutBuf<I>, res: (OutBuf<I>, T)| o.wf() && call_ensures(fun, (o,), res) ==> res.0.wf(),
    ensures
        exists|o: OutBuf<I>, back: OutBuf<I>|
            {
                &&& o.wf()
                &&& o.pos() == 0
                &&& o.storage() == Seq::new(o.cap(), |j: int| 0u8)
                &&& old(vec)@.len() + o.cap() <= isize::MAX
                &&& #[trigger] call_ensures(fun, (o,), (back, r))
                &&& final(vec)@ == old(vec)@ + back.filled()
            },
{
    let spare = vec_capacity(vec) - vec.len();
    let out = zeroed_out::<I>(spare);
    let ghost lent = out;
    let (back, r) = fun(out);
    let ghost returned = back;
    let filled = out_into_filled(back);
    vec.extend_from_slice(filled.as_slice());
    assert(vec@ =~= old(vec)@ + returned.filled());
    assert(call_ensures(fun, (lent,), (returned, r)));
    r
}

/// Converts the written part of an `OutBuf` into a vector.
pub(crate) fn out_into_filled<I: BufInit>(out: OutBuf<I>) -> (r: Vec<u8>)
    requires
        out.wf(),
    ensures
        r@ == out.filled(),
{
    Buffer::from_out(out).into_init_slice()
}

} // verus!
