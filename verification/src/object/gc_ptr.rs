use vstd::prelude::*;
use core::marker::PhantomData;
use vstd::layout::layout_for_type_is_valid;
use crate::object::array::Array;
use crate::object::fixnum::FIX_MAX;
use crate::object::heap::{Heap, HEAP_CAPACITY};
use crate::object::tag::{add_tag, remove_tag, spec_remove_tag, spec_tag_byte, lemma_tag_round_trip};
use crate::object::typeinfo::{Boxed, Type, TypeId};
use crate::object::word::Word;
use crate::object::Object;

verus! {

/// A typed, tagged reference to a boxed value of type `T` on the heap:
/// the heap address in the payload bits, `T`'s TypeId in the tag byte.
/// It does not own its target (nothing is ever freed), and copying it
/// shares the target.
pub struct GcPtr<T> {
    pub ptr: u64,
    pub marker: PhantomData<T>,
}

impl<T: Boxed> Clone for GcPtr<T> {
    fn clone(&self) -> (r: Self)
        ensures
            r == *self,
    {
        GcPtr { ptr: self.ptr, marker: PhantomData }
    }
}

impl<T: Boxed> Word for GcPtr<T> {
    open spec fn word(self) -> u64 {
        self.ptr
    }

    fn to_u64(self) -> u64 {
        self.ptr
    }

    fn from_u64(u: u64) -> Self {
        GcPtr { ptr: u, marker: PhantomData }
    }
}

impl<T: Boxed> GcPtr<T> {
    /// The untagged heap address.
    pub open spec fn address(self) -> int {
        spec_remove_tag(self.ptr) as int
    }

    /// A well-formed tagged pointer carries `T`'s TypeId in its tag byte.
    pub open spec fn wf(self) -> bool {
        spec_tag_byte(self.ptr) == T::type_id().spec_byte()
    }

    /// Tags `addr` with `T`'s TypeId. The address must fit the payload.
    fn from_address(addr: u64) -> (p: Self)
        requires
            spec_tag_byte(addr) == 0,
        ensures
            p.wf(),
            p.address() == addr,
    {
        proof {
            lemma_tag_round_trip(addr, T::type_id());
        }
        GcPtr { ptr: add_tag(addr, T::id()), marker: PhantomData }
    }
}


/// Whether `ptr`, read as an address, meets `T`'s alignment requirement.
pub fn is_aligned<T>(ptr: u64) -> (b: bool)
    ensures
        b == (ptr as int % align_of::<T>() as int == 0),
{
    layout_for_type_is_valid::<T>();
    let align: u64 = core::mem::align_of::<T>() as u64;
    (ptr % align) == 0
}

impl GcPtr<Array<Object>> {
    /// Allocates an object array holding copies of `elts`, in order, and
    /// returns the tagged pointer to it. The heap grows by exactly that one
    /// block; every older block is untouched.
    pub fn alloc_array(heap: &mut Heap, elts: &Vec<Object>) -> (p: GcPtr<Array<Object>>)
        requires
            old(heap).wf(),
            forall|i: int| 0 <= i < elts@.len() ==> old(heap).obj_wf(#[trigger] elts@[i]),
            elts@.len() <= FIX_MAX,
            old(heap).obj_store().len() < HEAP_CAPACITY,
        ensures
            final(heap).wf(),
            final(heap).byte_store() == old(heap).byte_store(),
            final(heap).obj_store().len() == old(heap).obj_store().len() + 1,
            forall|k: int|
                0 <= k < old(heap).obj_store().len() ==> final(heap).obj_store()[k] == old(
                    heap,
                ).obj_store()[k],
            final(heap).obj_store()[old(heap).obj_store().len() as int].model() == elts@,
            p.wf(),
            final(heap).obj_wf(Object::from_word(p.word())),
            p.address() == old(heap).obj_store().len(),
    {
        let arr = Array::from_elements(elts);
        let addr: u64 = heap.obj_arrays.len() as u64;
        heap.obj_arrays.push(arr);
        proof {
            assert(addr <= HEAP_CAPACITY ==> spec_tag_byte(addr) == 0) by (bit_vector);
        }
        let p = Self::from_address(addr);
        proof {
            assert forall|k: int, i: int|
                0 <= k < heap.obj_store().len() && 0 <= i < heap.obj_store()[k].model().len()
                    implies heap.elem_wf(k, #[trigger] heap.obj_store()[k].model()[i]) by {
                if k < old(heap).obj_store().len() {
                    assert(old(heap).elem_wf(k, old(heap).obj_store()[k].model()[i]));
                } else {
                    assert(heap.obj_store()[k].model()[i] == elts@[i]);
                    assert(old(heap).obj_wf(elts@[i]));
                }
            }
        }
        p
    }

    /// Follows the tagged pointer: strips the tag and reads the block it
    /// addresses.
    pub fn deref<'a>(&self, heap: &'a Heap) -> (a: &'a Array<Object>)
        requires
            heap.wf(),
            self.wf(),
            self.address() < heap.obj_store().len(),
        ensures
            *a == heap.obj_store()[self.address()],
            a.wf(),
    {
        let addr: u64 = remove_tag(self.ptr);
        &heap.obj_arrays[addr as usize]
    }
}

impl GcPtr<Array<u8>> {
    /// Allocates a byte array holding copies of `elts`, in order, and
    /// returns the tagged pointer to it. The heap grows by exactly that one
    /// block; every older block is untouched.
    pub fn alloc_array(heap: &mut Heap, elts: &Vec<u8>) -> (p: GcPtr<Array<u8>>)
        requires
            old(heap).wf(),
            elts@.len() <= FIX_MAX,
            old(heap).byte_store().len() < HEAP_CAPACITY,
        ensures
            final(heap).wf(),
            final(heap).obj_store() == old(heap).obj_store(),
            final(heap).byte_store().len() == old(heap).byte_store().len() + 1,
            forall|k: int|
                0 <= k < old(heap).byte_store().len() ==> final(heap).byte_store()[k] == old(
                    heap,
                ).byte_store()[k],
            final(heap).byte_store()[old(heap).byte_store().len() as int].model() == elts@,
            p.wf(),
            final(heap).obj_wf(Object::from_word(p.word())),
            p.address() == old(heap).byte_store().len(),
    {
        let arr = Array::from_elements(elts);
        let addr: u64 = heap.byte_arrays.len() as u64;
        heap.byte_arrays.push(arr);
        proof {
            assert(addr <= HEAP_CAPACITY ==> spec_tag_byte(addr) == 0) by (bit_vector);
        }
        let p = Self::from_address(addr);
        proof {
            assert forall|k: int, i: int|
                0 <= k < heap.obj_store().len() && 0 <= i < heap.obj_store()[k].model().len()
                    implies heap.elem_wf(k, #[trigger] heap.obj_store()[k].model()[i]) by {
                assert(old(heap).elem_wf(k, old(heap).obj_store()[k].model()[i]));
            }
        }
        p
    }

    /// Follows the tagged pointer: strips the tag and reads the block it
    /// addresses.
    pub fn deref<'a>(&self, heap: &'a Heap) -> (a: &'a Array<u8>)
        requires
            heap.wf(),
            self.wf(),
            self.address() < heap.byte_store().len(),
        ensures
            *a == heap.byte_store()[self.address()],
            a.wf(),
    {
        let addr: u64 = remove_tag(self.ptr);
        &heap.byte_arrays[addr as usize]
    }
}

} // verus!
