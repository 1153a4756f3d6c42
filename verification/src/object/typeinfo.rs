use vstd::prelude::*;

verus! {

/// The one-byte type discriminant stored in the high byte of a word,
/// one value per representable concrete type.
#[derive(Clone, Copy, PartialEq, Eq, Structural, Debug)]
pub enum TypeId {
    Fixnum,
    ObjArray,
    String,
}

/// The largest byte value naming a discriminant: the space is closed.
pub const MAX_TYPE_ID_BYTE: u8 = 2;

impl TypeId {
    /// The byte value of this discriminant.
    pub open spec fn spec_byte(self) -> u8 {
        match self {
            TypeId::Fixnum => 0,
            TypeId::ObjArray => 1,
            TypeId::String => 2,
        }
    }

    pub fn byte(self) -> (b: u8)
        ensures
            b == self.spec_byte(),
    {
        match self {
            TypeId::Fixnum => 0,
            TypeId::ObjArray => 1,
            TypeId::String => 2,
        }
    }

    /// The discriminant space is closed and validated at every conversion
    /// boundary: a byte outside it is a programming error, excluded here
    /// by precondition.
    pub fn from_byte(b: u8) -> (t: TypeId)
        requires
            b <= MAX_TYPE_ID_BYTE,
        ensures
            t.spec_byte() == b,
    {
        if b == 0 {
            TypeId::Fixnum
        } else if b == 1 {
            TypeId::ObjArray
        } else {
            TypeId::String
        }
    }
}

/// A representable concrete type, statically bound to exactly one TypeId.
/// The binding is injective: no two representable types share a discriminant.
pub trait Type {
    /// The discriminant assigned to this type.
    spec fn type_id() -> TypeId;

    /// Executable access to the discriminant.
    fn id() -> (t: TypeId)
        ensures
            t == Self::type_id(),
    ;
}

/// A type whose entire value is encoded inline in the 56 payload bits of a
/// word. Disjoint from `Boxed`.
pub trait Immediate: Type {

}

/// A type stored on the heap and referenced through a tagged address held
/// inline in the word. Disjoint from `Immediate`.
pub trait Boxed: Type {

}

/// A boxed type whose allocated size always equals its static in-memory
/// size; boxed types outside this marker have length-dependent size.
pub trait FixedSize: Boxed {

}

} // verus!
