use vstd::prelude::*;

verus! {

/// A 64-bit machine word. Every representable value defines a lossless,
/// total mapping to and from this bit pattern.
pub trait Word: Sized {
    /// The bit pattern of this value.
    spec fn word(self) -> u64;

    fn to_u64(self) -> (u: u64)
        ensures
            u == self.word(),
    ;

    fn from_u64(u: u64) -> (w: Self)
        ensures
            w.word() == u,
    ;
}

impl Word for u64 {
    open spec fn word(self) -> u64 {
        self
    }

    fn to_u64(self) -> u64 {
        self
    }

    fn from_u64(u: u64) -> u64 {
        u
    }
}

} // verus!
