use vstd::prelude::*;
use crate::object::array::Array;
use crate::object::fixnum::{Fixnum, FIX_MAX};
use crate::object::gc_ptr::GcPtr;
use crate::object::heap::Heap;
use crate::object::typeinfo::TypeId;
use crate::object::word::Word;
use crate::object::Object;

verus! {

/// A printer failure. Writing happens into an in-memory buffer, which
/// cannot fail; the variant records the class an underlying sink would
/// report.
#[derive(Debug)]
pub enum Error {
    Io,
}

/// Serializes objects into an output buffer: a fixnum as its decimal
/// signed value, an object array as a parenthesized, space-separated list
/// of its elements, a byte array as its raw bytes.
pub struct Printer {
    pub output: Vec<u8>,
}

/// The decimal digits of `n`, most significant first.
pub open spec fn spec_decimal_nat(n: nat) -> Seq<u8>
    decreases n,
{
    if n < 10 {
        seq![(48 + n) as u8]
    } else {
        spec_decimal_nat(n / 10).push((48 + n % 10) as u8)
    }
}

/// The decimal rendering of a signed integer: a minus sign followed by the
/// digits of the magnitude, or just the digits.
pub open spec fn spec_decimal_int(i: int) -> Seq<u8> {
    if i < 0 {
        seq![45u8] + spec_decimal_nat((-i) as nat)
    } else {
        spec_decimal_nat(i as nat)
    }
}

/// The rank of an object in `heap`: boxed object arrays rank one above
/// their heap address, everything else ranks zero. Because every element
/// of an object array was allocated strictly earlier than the array, an
/// element's rank is strictly below its container's.
pub open spec fn obj_rank(o: Object) -> nat {
    if o.tag_is(TypeId::ObjArray) {
        (o.address() + 1) as nat
    } else {
        0
    }
}

/// The serialized form of a well-formed object against `heap`.
pub open spec fn spec_print_obj(heap: Heap, o: Object) -> Seq<u8>
    decreases obj_rank(o), 1int, 0int,
        when heap.wf() && heap.obj_wf(o)
{
    if o.tag_is(TypeId::Fixnum) {
        spec_decimal_int(crate::object::fixnum::payload_value(o.word()))
    } else if o.tag_is(TypeId::ObjArray) {
        seq![40u8] + spec_print_elems(
            heap,
            obj_rank(o),
            heap.obj_store()[o.address()].model(),
            0,
        ) + seq![41u8]
    } else {
        heap.byte_store()[o.address()].model()
    }
}

/// The serialized forms of `elems[i..]`, each but the first preceded by a
/// space. `r` bounds the rank of every element strictly from above.
pub open spec fn spec_print_elems(heap: Heap, r: nat, elems: Seq<Object>, i: int) -> Seq<u8>
    decreases r, 0int, elems.len() - i,
        when heap.wf() && 0 <= i && (forall|j: int|
            0 <= j < elems.len() ==> heap.obj_wf(#[trigger] elems[j]) && obj_rank(elems[j]) < r)
{
    if i >= elems.len() {
        Seq::empty()
    } else {
        let head = spec_print_obj(heap, elems[i]);
        let sep: Seq<u8> = if i > 0 {
            seq![32u8]
        } else {
            Seq::empty()
        };
        sep + head + spec_print_elems(heap, r, elems, i + 1)
    }
}

} // verus!

verus! {

/// Appends the decimal digits of `n` to `out`.
fn push_decimal_u64(out: &mut Vec<u8>, n: u64)
    ensures
        final(out)@ == old(out)@ + spec_decimal_nat(n as nat),
    decreases n,
{
    if n < 10 {
        out.push(48 + (n as u8));
    } else {
        push_decimal_u64(out, n / 10);
        out.push(48 + ((n % 10) as u8));
    }
}

} // verus!

verus! {

/// Appends the decimal rendering of `i` to `out`: a minus sign and the
/// magnitude's digits for a negative value, the digits alone otherwise.
fn push_decimal_i64(out: &mut Vec<u8>, i: i64)
    requires
        i > i64::MIN,
    ensures
        final(out)@ == old(out)@ + spec_decimal_int(i as int),
{
    if i < 0 {
        out.push(45);
        push_decimal_u64(out, (-i) as u64);
        proof {
            assert(final(out)@ == old(out)@ + spec_decimal_int(i as int));
        }
    } else {
        push_decimal_u64(out, i as u64);
    }
}

impl Printer {
    /// A printer over the given output buffer.
    pub fn from(output: Vec<u8>) -> (p: Printer)
        ensures
            p.output@ == output@,
    {
        Printer { output }
    }

    /// Serializes one object, followed by a newline. (The buffer needs no
    /// flushing; emptying it is its owner's business.)
    pub fn print(&mut self, heap: &Heap, obj: Object) -> (r: Result<(), Error>)
        requires
            heap.wf(),
            heap.obj_wf(obj),
        ensures
            r is Ok,
            final(self).output@ == old(self).output@ + spec_print_obj(*heap, obj) + seq![10u8],
    {
        self.print_one(heap, obj);
        self.output.push(10);
        Ok(())
    }

    /// Serializes one object with no trailing newline, dispatching on its
    /// recovered TypeId over the closed discriminant space.
    fn print_one(&mut self, heap: &Heap, obj: Object)
        requires
            heap.wf(),
            heap.obj_wf(obj),
        ensures
            final(self).output@ == old(self).output@ + spec_print_obj(*heap, obj),
        decreases obj_rank(obj), 1int, 0int,
    {
        let tag = crate::object::tag::extract_tag(obj);
        match tag {
            TypeId::Fixnum => {
                match Fixnum::try_from(obj) {
                    Ok(f) => self.print_fixnum(f),
                    Err(_) => vstd::pervasive::unreached(),
                }
            },
            TypeId::ObjArray => {
                match GcPtr::<Array<Object>>::try_from(obj) {
                    Ok(p) => self.print_objarr(heap, p),
                    Err(_) => vstd::pervasive::unreached(),
                }
            },
            TypeId::String => {
                match GcPtr::<Array<u8>>::try_from(obj) {
                    Ok(p) => self.print_string(heap, p),
                    Err(_) => vstd::pervasive::unreached(),
                }
            },
        }
    }

    /// A fixnum prints as its decimal signed value.
    fn print_fixnum(&mut self, fix: Fixnum)
        ensures
            final(self).output@ == old(self).output@ + spec_decimal_int(fix.value()),
    {
        proof {
            crate::object::fixnum::lemma_payload_value_in_range(fix.0);
        }
        let i = fix.to_i64();
        push_decimal_i64(&mut self.output, i);
    }

    /// An object array prints as an opening parenthesis, the space-separated
    /// prints of its elements, and a closing parenthesis.
    fn print_objarr(&mut self, heap: &Heap, arr: GcPtr<Array<Object>>)
        requires
            heap.wf(),
            arr.wf(),
            arr.address() < heap.obj_store().len(),
        ensures
            final(self).output@ == old(self).output@ + spec_print_obj(
                *heap,
                Object::from_word(arr.word()),
            ),
        decreases arr.address() + 1, 0int, 0int,
    {
        let ghost o = Object::from_word(arr.word());
        let ghost r = obj_rank(o);
        let a = arr.deref(heap);
        let ghost elems = a.model();
        proof {
            assert(o.tag_is(TypeId::ObjArray) && o.address() == arr.address());
            assert forall|j: int| 0 <= j < elems.len() implies heap.obj_wf(#[trigger] elems[j])
                && obj_rank(elems[j]) < r by {
                assert(heap.elem_wf(arr.address(), elems[j]));
            }
        }
        self.output.push(40);
        let n = a.body.len();
        proof {
            crate::object::fixnum::lemma_payload_value_in_range(a.length.0);
        }
        let ghost start = self.output@;
        let mut i: usize = 0;
        while i < n
            invariant
                heap.wf(),
                arr.wf(),
                arr.address() < heap.obj_store().len(),
                r == obj_rank(Object::from_word(arr.word())),
                n <= FIX_MAX,
                a == heap.obj_store()[arr.address() as int],
                a.wf(),
                n == elems.len(),
                elems == a.model(),
                i <= n,
                forall|j: int|
                    0 <= j < elems.len() ==> heap.obj_wf(#[trigger] elems[j]) && obj_rank(
                        elems[j],
                    ) < r,
                self.output@ + spec_print_elems(*heap, r, elems, i as int) == start
                    + spec_print_elems(*heap, r, elems, 0),
            decreases r, 0int, n - i,
        {
            if i != 0 {
                self.output.push(32);
            }
            let ghost before = self.output@;
            let e: Object = *a.index(Fixnum::from_i64(i as i64));
            self.print_one(heap, e);
            proof {
                let sep: Seq<u8> = if i > 0 {
                    seq![32u8]
                } else {
                    Seq::empty()
                };
                assert(self.output@ =~= before + spec_print_obj(*heap, elems[i as int]));
                assert(spec_print_elems(*heap, r, elems, i as int) == sep + spec_print_obj(
                    *heap,
                    elems[i as int],
                ) + spec_print_elems(*heap, r, elems, i + 1));
                assert(self.output@ + spec_print_elems(*heap, r, elems, i + 1) =~= start
                    + spec_print_elems(*heap, r, elems, 0));
            }
            i = i + 1;
        }
        self.output.push(41);
        proof {
            assert(spec_print_elems(*heap, r, elems, n as int) == Seq::<u8>::empty());
            assert(self.output@ =~= old(self).output@ + spec_print_obj(*heap, o));
        }
    }

    /// A byte array prints as its raw bytes, with no quoting or escaping.
    fn print_string(&mut self, heap: &Heap, arr: GcPtr<Array<u8>>)
        requires
            heap.wf(),
            arr.wf(),
            arr.address() < heap.byte_store().len(),
        ensures
            final(self).output@ == old(self).output@ + spec_print_obj(
                *heap,
                Object::from_word(arr.word()),
            ),
    {
        let a = arr.deref(heap);
        let s = a.untagged_body_ptr();
        let n = s.len();
        let ghost start = self.output@;
        let mut i: usize = 0;
        while i < n
            invariant
                n == s@.len(),
                s@ == a.model(),
                i <= n,
                self.output@ == start + s@.subrange(0, i as int),
            decreases n - i,
        {
            self.output.push(s[i]);
            proof {
                assert(start + s@.subrange(0, i as int) + seq![s@[i as int]] =~= start
                    + s@.subrange(0, i + 1));
            }
            i = i + 1;
        }
        proof {
            assert(s@.subrange(0, n as int) =~= s@);
            let o = Object::from_word(arr.word());
            assert(o.tag_is(TypeId::String) && !o.tag_is(TypeId::Fixnum) && !o.tag_is(
                TypeId::ObjArray,
            ));
        }
    }
}

} // verus!
