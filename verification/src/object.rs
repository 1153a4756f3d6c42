pub mod array;
pub mod fixnum;
pub mod gc_ptr;
pub mod heap;
pub mod tag;
pub mod typeinfo;
pub mod word;

use vstd::prelude::*;
use crate::object::fixnum::Fixnum;
use crate::object::gc_ptr::GcPtr;
use crate::object::tag::{extract_tag, spec_remove_tag, spec_tag_byte};
use crate::object::typeinfo::{Boxed, Type, TypeId, MAX_TYPE_ID_BYTE};
use crate::object::word::Word;

verus! {

/// The closed union of all representable values: a single tagged word.
/// An immediate value lives entirely in the payload bits; a boxed value
/// holds the tagged address of its heap storage. An Object owns nothing.
#[derive(Clone, Copy)]
pub struct Object {
    pub word_bits: u64,
}

impl Word for Object {
    open spec fn word(self) -> u64 {
        self.word_bits
    }

    fn to_u64(self) -> u64 {
        self.word_bits
    }

    fn from_u64(u: u64) -> Self {
        Object { word_bits: u }
    }
}

impl Object {
    /// The object holding the given word.
    pub open spec fn from_word(u: u64) -> Object {
        Object { word_bits: u }
    }

    /// The tag byte in the high byte of the word.
    pub open spec fn tag_byte(self) -> u8 {
        spec_tag_byte(self.word_bits)
    }

    /// Whether the tag byte names `t`.
    pub open spec fn tag_is(self, t: TypeId) -> bool {
        self.tag_byte() == t.spec_byte()
    }

    /// For a boxed object, the untagged heap address held in the payload.
    pub open spec fn address(self) -> int {
        spec_remove_tag(self.word_bits) as int
    }

    /// A well-formed object carries a recognized tag byte: the discriminant
    /// space is closed.
    pub open spec fn wf(self) -> bool {
        self.tag_byte() <= MAX_TYPE_ID_BYTE
    }

    /// Recovers the TypeId of this object.
    pub fn type_of(&self) -> (t: TypeId)
        requires
            self.wf(),
        ensures
            t.spec_byte() == self.tag_byte(),
    {
        extract_tag(*self)
    }

    /// Composes a fixnum into an object (its word is already tagged).
    pub fn from_fixnum(fix: Fixnum) -> (o: Object)
        ensures
            o.word() == fix.word(),
    {
        Object::from_u64(fix.to_u64())
    }

    /// Composes a tagged pointer into an object (its word is already tagged).
    pub fn from_gc_ptr<T: Boxed>(ptr: GcPtr<T>) -> (o: Object)
        ensures
            o.word() == ptr.word(),
    {
        Object::from_u64(ptr.to_u64())
    }
}

impl Fixnum {
    /// Attempts the typed downcast of an object to a fixnum. An object of
    /// any other TypeId is never converted; the observed TypeId comes back
    /// as the error signal.
    pub fn try_from(o: Object) -> (r: Result<Fixnum, TypeId>)
        requires
            o.wf(),
        ensures
            match r {
                Ok(f) => o.tag_is(TypeId::Fixnum) && f.word() == o.word() && f.wf(),
                Err(t) => t.spec_byte() == o.tag_byte() && !o.tag_is(TypeId::Fixnum),
            },
    {
        let tag = extract_tag(o);
        if tag == Fixnum::id() {
            Ok(Fixnum::from_u64(o.to_u64()))
        } else {
            Err(tag)
        }
    }
}

impl<T: Boxed> GcPtr<T> {
    /// Attempts the typed downcast of an object to a tagged pointer of the
    /// boxed type `T`. An object of any other TypeId is never converted;
    /// the observed TypeId comes back as the error signal.
    pub fn try_from(o: Object) -> (r: Result<GcPtr<T>, TypeId>)
        requires
            o.wf(),
        ensures
            match r {
                Ok(p) => o.tag_is(T::type_id()) && p.word() == o.word() && p.wf(),
                Err(t) => t.spec_byte() == o.tag_byte() && !o.tag_is(T::type_id()),
            },
    {
        let tag = extract_tag(o);
        if tag == T::id() {
            Ok(GcPtr::from_u64(o.to_u64()))
        } else {
            Err(tag)
        }
    }
}

} // verus!
