//! Markers tracking how much of a buffer's storage holds meaningful bytes.
//!
//! Three markers exist:
//!
//! * [`Init`] - the whole storage is initialized.
//! * [`Uninit`] - no guarantee about the storage.
//! * [`Dynamic`] - the length of the initialized prefix is tracked at run time.
use vstd::prelude::*;

verus! {

/// Raising the tracked length to `len`: only a dynamic marker records anything, and it keeps the
/// larger of the two values.
pub open spec fn raised_init_len(cur: Option<usize>, len: usize, dynamic: bool) -> Option<usize> {
    if dynamic {
        match cur {
            Some(k) => Some(if len > k { len } else { k }),
            None => None,
        }
    } else {
        cur
    }
}

/// Trait representing marker types usable for tracking of initializedness.
///
/// `spec_init_len` is `None` when the whole storage is known to be initialized, and `Some(k)`
/// when only the first `k` bytes are.
pub trait BufInit: Sized {
    /// The tracked length of the initialized prefix (`None`: all of it).
    spec fn spec_init_len(&self) -> Option<usize>;

    /// Whether buffers with this marker must be zeroed before use.
    spec fn spec_needs_init() -> bool;

    /// Whether this marker tracks the initialized length at run time.
    spec fn spec_is_dynamic() -> bool;

    /// The tracked length of a marker created from `init` initialized bytes.
    spec fn spec_init_len_for(init: usize) -> Option<usize>;

    /// A marker created from `init` bytes never claims more than `init` bytes.
    proof fn lemma_init_len_for(init: usize)
        ensures
            Self::spec_init_len_for(init) matches Some(k) ==> k <= init,
    ;

    /// Returns the tracked length (`None` means the whole buffer).
    fn init_len(&self) -> (r: Option<usize>)
        ensures
            r == self.spec_init_len(),
    ;

    /// Records that `len` bytes are initialized.
    fn set_init(&mut self, len: usize)
        ensures
            final(self).spec_init_len() == (if Self::spec_is_dynamic() {
                Some(len)
            } else {
                old(self).spec_init_len()
            }),
    ;

    /// Records that at least `len` bytes are initialized.
    fn update_min(&mut self, len: usize)
        ensures
            final(self).spec_init_len() == raised_init_len(
                old(self).spec_init_len(),
                len,
                Self::spec_is_dynamic(),
            ),
    ;

    /// Whether buffers with this marker must be zeroed before use.
    fn needs_init() -> (b: bool)
        ensures
            b == Self::spec_needs_init(),
    ;

    /// Creates the marker for storage whose first `init` bytes are initialized.
    fn new_unchecked(init: usize) -> (r: Self)
        ensures
            r.spec_init_len() == Self::spec_init_len_for(init),
    ;

    /// Whether this marker tracks the initialized length at run time.
    fn is_dynamic() -> (b: bool)
        ensures
            b == Self::spec_is_dynamic(),
    ;
}

/// Markers for types that can be constructed from uninitialized data: `Uninit` and `Dynamic`.
pub trait FromUninit: BufInit {
    /// Creates the marker for storage whose first `init` bytes are initialized.
    fn new(init: usize) -> (r: Self)
        ensures
            r.spec_init_len() == Self::spec_init_len_for(init),
    ;
}

/// A type operator that produces the most optimal initializedness marker to be consumed by two
/// generic byte producers: the same marker for equal markers and `Dynamic` otherwise.
pub trait Combine<T: BufInit> {
    /// The output of the type operator.
    type Combined: BufInit;
}

impl Combine<Init> for Init {
    type Combined = Init;
}

impl Combine<Dynamic> for Init {
    type Combined = Dynamic;
}

impl Combine<Uninit> for Init {
    type Combined = Dynamic;
}

impl Combine<Init> for Dynamic {
    type Combined = Dynamic;
}

impl Combine<Dynamic> for Dynamic {
    type Combined = Dynamic;
}

impl Combine<Uninit> for Dynamic {
    type Combined = Dynamic;
}

impl Combine<Init> for Uninit {
    type Combined = Dynamic;
}

impl Combine<Dynamic> for Uninit {
    type Combined = Dynamic;
}

impl Combine<Uninit> for Uninit {
    type Combined = Uninit;
}

/// Marker not giving any guarantees about the initializedness of storage.
pub struct Uninit(());

/// Marker dynamically tracking initializedness of storage.
///
/// This provides flexibility at the cost of overhead.
pub struct Dynamic(usize);

/// Marker guaranteeing that the storage is actually initialized.
pub struct Init(());

impl Init {
    /// Creates the marker; only code that has initialized the storage may do so.
    pub(crate) fn new() -> (r: Self)
        ensures
            r.spec_init_len() == None::<usize>,
    {
        Init(())
    }
}

impl FromUninit for Uninit {
    fn new(_init: usize) -> (r: Self) {
        Uninit(())
    }
}

impl BufInit for Uninit {
    open spec fn spec_init_len(&self) -> Option<usize> {
        Some(0usize)
    }

    open spec fn spec_needs_init() -> bool {
        false
    }

    open spec fn spec_is_dynamic() -> bool {
        false
    }

    open spec fn spec_init_len_for(init: usize) -> Option<usize> {
        Some(0usize)
    }

    proof fn lemma_init_len_for(init: usize) {
    }

    fn init_len(&self) -> (r: Option<usize>) {
        Some(0)
    }

    fn set_init(&mut self, _len: usize) {
    }

    fn update_min(&mut self, _len: usize) {
    }

    fn needs_init() -> (b: bool) {
        false
    }

    fn new_unchecked(_init: usize) -> (r: Self) {
        Uninit(())
    }

    fn is_dynamic() -> (b: bool) {
        false
    }
}

impl BufInit for Init {
    open spec fn spec_init_len(&self) -> Option<usize> {
        None
    }

    open spec fn spec_needs_init() -> bool {
        true
    }

    open spec fn spec_is_dynamic() -> bool {
        false
    }

    open spec fn spec_init_len_for(init: usize) -> Option<usize> {
        None
    }

    proof fn lemma_init_len_for(init: usize) {
    }

    fn init_len(&self) -> (r: Option<usize>) {
        None
    }

    fn set_init(&mut self, _len: usize) {
    }

    fn update_min(&mut self, _len: usize) {
    }

    fn needs_init() -> (b: bool) {
        true
    }

    fn new_unchecked(_init: usize) -> (r: Self) {
        Init(())
    }

    fn is_dynamic() -> (b: bool) {
        false
    }
}

impl FromUninit for Dynamic {
    fn new(init: usize) -> (r: Self) {
        Dynamic(init)
    }
}

impl BufInit for Dynamic {
    closed spec fn spec_init_len(&self) -> Option<usize> {
        Some(self.0)
    }

    open spec fn spec_needs_init() -> bool {
        false
    }

    open spec fn spec_is_dynamic() -> bool {
        true
    }

    open spec fn spec_init_len_for(init: usize) -> Option<usize> {
        Some(init)
    }

    proof fn lemma_init_len_for(init: usize) {
    }

    fn init_len(&self) -> (r: Option<usize>) {
        Some(self.0)
    }

    fn set_init(&mut self, len: usize) {
        self.0 = len;
    }

    fn update_min(&mut self, len: usize) {
        if len > self.0 {
            self.0 = len;
        }
    }

    fn needs_init() -> (b: bool) {
        false
    }

    fn new_unchecked(init: usize) -> (r: Self) {
        Dynamic(init)
    }

    fn is_dynamic() -> (b: bool) {
        true
    }
}

} // verus!
