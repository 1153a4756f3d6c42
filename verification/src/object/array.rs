use vstd::prelude::*;
use crate::object::fixnum::{Fixnum, FIX_MAX};
use crate::object::typeinfo::{Boxed, Type, TypeId};
use crate::object::word::Word;
use crate::object::Object;

verus! {

/// In the represented heap image, the byte size of an array header:
/// a fixnum length field padded out to one element slot of the widest
/// element type.
pub const ARRAY_HEADER_SIZE: usize = 16;

/// The alignment of every array block in the represented heap image.
pub const ARRAY_ALIGN: usize = 8;

/// The heap layout for a variable-size boxed aggregate: a fixnum length
/// followed by a contiguous run of exactly `length` elements of a uniform
/// element type. Never resized after construction.
pub struct Array<T> {
    pub length: Fixnum,
    pub body: Vec<T>,
}

impl Type for Array<Object> {
    open spec fn type_id() -> TypeId {
        TypeId::ObjArray
    }

    fn id() -> TypeId {
        TypeId::ObjArray
    }
}

impl Type for Array<u8> {
    open spec fn type_id() -> TypeId {
        TypeId::String
    }

    fn id() -> TypeId {
        TypeId::String
    }
}

impl<T> Boxed for Array<T> where Array<T>: Type {

}

impl<T> Array<T> {
    /// The sequence of elements this array holds.
    pub open spec fn model(self) -> Seq<T> {
        self.body@
    }

    /// The stored length is a well-formed fixnum that counts the elements
    /// exactly.
    pub open spec fn wf(self) -> bool {
        &&& self.length.wf()
        &&& self.length.value() == self.body@.len()
    }

    /// The length header.
    pub fn len(&self) -> (n: Fixnum)
        ensures
            n == self.length,
    {
        self.length
    }

    pub fn is_empty(&self) -> (b: bool)
        requires
            self.wf(),
        ensures
            b == (self.model().len() == 0),
    {
        let b = self.len().to_i64() == 0;
        b
    }

    /// Bounds-checked element access: empty when `idx` is outside
    /// `0 <= idx < length`, otherwise a reference into the body.
    pub fn at(&self, idx: Fixnum) -> (r: Option<&T>)
        requires
            self.wf(),
        ensures
            match r {
                Some(e) => 0 <= idx.value() < self.model().len() && *e == self.model()[idx.value()],
                None => !(0 <= idx.value() < self.model().len()),
            },
    {
        let i = idx.to_i64();
        let n = self.body.len();
        proof {
            crate::object::fixnum::lemma_payload_value_in_range(self.length.0);
        }
        if 0 <= i && i < n as i64 {
            Some(&self.body[i as usize])
        } else {
            None
        }
    }

    /// Element access expected never to be out of range: callers must have
    /// established the bounds already.
    pub fn index(&self, idx: Fixnum) -> (e: &T)
        requires
            self.wf(),
            0 <= idx.value() < self.model().len(),
        ensures
            *e == self.model()[idx.value()],
    {
        let i = idx.to_i64();
        let n = self.body.len();
        proof {
            crate::object::fixnum::lemma_payload_value_in_range(self.length.0);
            assert(0 <= (i as int) && (i as int) < n as int);
        }
        &self.body[i as usize]
    }

    /// A view of the element storage, with no tag to strip: the safe
    /// counterpart of a pointer to the first element.
    pub fn untagged_body_ptr(&self) -> (s: &[T])
        ensures
            s@ == self.model(),
    {
        self.body.as_slice()
    }
}

impl<T: Copy> Array<T> {
    /// Builds an array from `elts`, writing the length and then each
    /// element in index order.
    pub fn from_elements(elts: &Vec<T>) -> (a: Array<T>)
        requires
            elts@.len() <= FIX_MAX,
        ensures
            a.wf(),
            a.model() == elts@,
    {
        let n = elts.len();
        let length = Fixnum::from_i64(n as i64);
        let mut body: Vec<T> = Vec::new();
        let mut i: usize = 0;
        while i < n
            invariant
                n == elts@.len(),
                i <= n,
                body@ == elts@.subrange(0, i as int),
            decreases n - i,
        {
            body.push(elts[i]);
            proof {
                assert(body@ == elts@.subrange(0, i + 1));
            }
            i = i + 1;
        }
        proof {
            assert(elts@.subrange(0, n as int) == elts@);
        }
        Array { length, body }
    }
}

impl Array<Object> {
    /// The exact allocation footprint, in bytes, of an object array of
    /// `len` elements in the represented heap image: the header plus one
    /// 8-byte slot for each element beyond the first. Computed against
    /// `max(len, 1) - 1` so that a zero length cannot underflow.
    pub fn layout(len: usize) -> (r: (usize, usize))
        requires
            ARRAY_HEADER_SIZE + (len as int - 1) * 8 <= usize::MAX,
        ensures
            r.0 == ARRAY_HEADER_SIZE + (if len as int >= 1 { (len - 1) as int } else { 0int }) * 8,
            r.0 >= ARRAY_HEADER_SIZE,
            r.1 == ARRAY_ALIGN,
    {
        let m: usize = if len < 1 {
            1
        } else {
            len
        };
        (ARRAY_HEADER_SIZE + (m - 1) * 8, ARRAY_ALIGN)
    }
}

impl Array<u8> {
    /// The exact allocation footprint, in bytes, of a byte array of `len`
    /// elements in the represented heap image: the header plus one byte for
    /// each element beyond the first. Computed against `max(len, 1) - 1` so
    /// that a zero length cannot underflow.
    pub fn layout(len: usize) -> (r: (usize, usize))
        requires
            ARRAY_HEADER_SIZE + (len as int - 1) <= usize::MAX,
        ensures
            r.0 == ARRAY_HEADER_SIZE + (if len as int >= 1 { (len - 1) as int } else { 0int }),
            r.0 >= ARRAY_HEADER_SIZE,
            r.1 == ARRAY_ALIGN,
    {
        let m: usize = if len < 1 {
            1
        } else {
            len
        };
        (ARRAY_HEADER_SIZE + (m - 1), ARRAY_ALIGN)
    }
}

} // verus!

verus! {

/// Array round-trip law: an array allocated from elements holds exactly
/// those elements — its length counts them and reading position `i` gives
/// element `i`. (Allocation establishes `wf` and `model() == elts`; `len`
/// and `at` answer from that same model.)
pub proof fn lemma_array_round_trip<T>(a: Array<T>, elts: Seq<T>)
    requires
        a.wf(),
        a.model() == elts,
    ensures
        a.length.value() == elts.len(),
        forall|i: int| 0 <= i < elts.len() ==> a.model()[i] == elts[i],
{
}

} // verus!
