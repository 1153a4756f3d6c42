use vstd::prelude::*;
use crate::object::array::Array;
use crate::object::typeinfo::TypeId;
use crate::object::Object;

verus! {

/// The largest number of blocks either store of the heap may hold: small
/// enough that every heap address fits both the 56-bit payload of a word
/// and a usize index.
pub const HEAP_CAPACITY: u64 = 0x4000_0000;

/// The single global allocation source: all boxed values live here, object
/// arrays and byte arrays in a store each, addressed by index. Nothing is
/// ever freed or resized; blocks live until the heap is dropped.
pub struct Heap {
    pub obj_arrays: Vec<Array<Object>>,
    pub byte_arrays: Vec<Array<u8>>,
}

impl Heap {
    /// The store of object arrays.
    pub open spec fn obj_store(self) -> Seq<Array<Object>> {
        self.obj_arrays@
    }

    /// The store of byte arrays.
    pub open spec fn byte_store(self) -> Seq<Array<u8>> {
        self.byte_arrays@
    }

    /// A root object is well formed against this heap when its tag is
    /// recognized and, if boxed, its address lies inside the right store.
    pub open spec fn obj_wf(self, o: Object) -> bool {
        &&& o.wf()
        &&& o.tag_is(TypeId::ObjArray) ==> o.address() < self.obj_store().len()
        &&& o.tag_is(TypeId::String) ==> o.address() < self.byte_store().len()
    }

    /// Every stored array is well formed; every object held in an object
    /// array is well formed against this heap, and an object array it
    /// points to was allocated strictly earlier (allocation order makes the
    /// reachable object graph acyclic).
    pub open spec fn wf(self) -> bool {
        &&& self.obj_store().len() <= HEAP_CAPACITY
        &&& self.byte_store().len() <= HEAP_CAPACITY
        &&& forall|k: int|
            0 <= k < self.obj_store().len() ==> (#[trigger] self.obj_store()[k]).wf()
        &&& forall|k: int|
            0 <= k < self.byte_store().len() ==> (#[trigger] self.byte_store()[k]).wf()
        &&& forall|k: int, i: int|
            0 <= k < self.obj_store().len() && 0 <= i < self.obj_store()[k].model().len()
                ==> self.elem_wf(k, #[trigger] self.obj_store()[k].model()[i])
    }

    /// Well-formedness of one object stored inside the object array at
    /// store index `k`.
    pub open spec fn elem_wf(self, k: int, o: Object) -> bool {
        &&& o.wf()
        &&& o.tag_is(TypeId::ObjArray) ==> o.address() < k
        &&& o.tag_is(TypeId::String) ==> o.address() < self.byte_store().len()
    }

    /// An empty heap.
    pub fn new() -> (h: Heap)
        ensures
            h.wf(),
            h.obj_store().len() == 0,
            h.byte_store().len() == 0,
    {
        Heap { obj_arrays: Vec::new(), byte_arrays: Vec::new() }
    }
}

} // verus!
