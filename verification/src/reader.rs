use vstd::prelude::*;
use crate::object::array::Array;
use crate::object::gc_ptr::GcPtr;
use crate::object::heap::{Heap, HEAP_CAPACITY};
use crate::object::typeinfo::TypeId;
use crate::object::word::Word;
use crate::object::Object;
use crate::printer::obj_rank;

verus! {

/// A reader failure: end of input while a form is incomplete, or a closing
/// delimiter where a new form was expected.
#[derive(Debug, PartialEq, Eq, Structural)]
pub enum Error {
    Eof,
    UnexpectedDelim,
}

/// Consumes a byte buffer and produces one object per top-level form of a
/// minimal parenthesized-list grammar.
pub struct Reader {
    pub input: Vec<u8>,
    pub pos: usize,
}

impl Reader {
    /// Reading position never runs past the input.
    pub open spec fn wf(self) -> bool {
        self.pos <= self.input@.len()
    }

    /// The bytes not yet consumed.
    pub open spec fn remaining(self) -> Seq<u8> {
        self.input@.skip(self.pos as int)
    }

    pub fn from(input: Vec<u8>) -> (r: Reader)
        ensures
            r.wf(),
            r.input@ == input@,
            r.pos == 0,
    {
        Reader { input, pos: 0 }
    }
}

} // verus!

verus! {

/// The abstract value a parsed form denotes: an atom of bytes, or a list
/// of values. (The reader never produces numbers; an atom of digits is
/// still an atom.)
pub enum SpecValue {
    Int(int),
    Atom(Seq<u8>),
    List(Seq<SpecValue>),
}

/// The outcome of parsing one form.
pub enum SpecParse {
    Val(SpecValue, int),
    Eof,
    Delim,
}

/// The outcome of parsing the elements of a list up to its terminator.
pub enum SpecListParse {
    Vals(Seq<SpecValue>, int),
    Eof,
    Delim,
}

pub open spec fn spec_whitespace(b: u8) -> bool {
    b == 32 || b == 9 || b == 10
}

pub open spec fn spec_opening_delim(b: u8) -> bool {
    b == 40 || b == 91
}

pub open spec fn spec_closing_delim(b: u8) -> bool {
    b == 41 || b == 93
}

pub open spec fn spec_matching_delim(b: u8) -> u8 {
    if b == 40 {
        41
    } else {
        93
    }
}

pub open spec fn spec_atom_constituent(b: u8) -> bool {
    !spec_whitespace(b) && !spec_opening_delim(b) && !spec_closing_delim(b)
}

/// The first position at or after `i` holding a byte that is not
/// whitespace, or the end of input.
pub open spec fn spec_skip_ws(s: Seq<u8>, i: int) -> int
    decreases s.len() - i,
{
    if i < 0 || i >= s.len() {
        i
    } else if spec_whitespace(s[i]) {
        spec_skip_ws(s, i + 1)
    } else {
        i
    }
}

/// The end of the maximal run of atom-constituent bytes starting at `i`.
pub open spec fn spec_atom_end(s: Seq<u8>, i: int) -> int
    decreases s.len() - i,
{
    if i < 0 || i >= s.len() {
        i
    } else if spec_atom_constituent(s[i]) {
        spec_atom_end(s, i + 1)
    } else {
        i
    }
}

/// Skipping whitespace never moves backward nor past the end.
pub proof fn lemma_skip_ws_bounds(s: Seq<u8>, i: int)
    requires
        0 <= i <= s.len(),
    ensures
        i <= spec_skip_ws(s, i) <= s.len(),
    decreases s.len() - i,
{
    if i < s.len() && spec_whitespace(s[i]) {
        lemma_skip_ws_bounds(s, i + 1);
    }
}

/// The end of an atom never lies before its start nor past the end.
pub proof fn lemma_atom_end_bounds(s: Seq<u8>, i: int)
    requires
        0 <= i <= s.len(),
    ensures
        i <= spec_atom_end(s, i) <= s.len(),
    decreases s.len() - i,
{
    if i < s.len() && spec_atom_constituent(s[i]) {
        lemma_atom_end_bounds(s, i + 1);
    }
}

/// Parses one form of the grammar at position `i`: whitespace separates
/// tokens, an opening delimiter starts a list closed by its matching
/// delimiter, and a maximal nonempty run of other bytes is an atom. End of
/// input before a form completes yields Eof; a closing delimiter where a
/// form was expected yields Delim.
pub open spec fn spec_parse(s: Seq<u8>, i: int) -> SpecParse
    decreases s.len() - i, 0int,
        when 0 <= i <= s.len()
{
    let j = spec_skip_ws(s, i);
    proof {
        lemma_skip_ws_bounds(s, i);
    }
    if j >= s.len() {
        SpecParse::Eof
    } else if spec_opening_delim(s[j]) {
        match spec_parse_list(s, j + 1, spec_matching_delim(s[j])) {
            SpecListParse::Vals(vs, p) => SpecParse::Val(SpecValue::List(vs), p),
            SpecListParse::Eof => SpecParse::Eof,
            SpecListParse::Delim => SpecParse::Delim,
        }
    } else if spec_closing_delim(s[j]) {
        SpecParse::Delim
    } else {
        let e = spec_atom_end(s, j);
        if e >= s.len() {
            SpecParse::Eof
        } else {
            SpecParse::Val(SpecValue::Atom(s.subrange(j, e)), e)
        }
    }
}

/// Parses list elements at position `i` until the terminator byte, which
/// is consumed.
pub open spec fn spec_parse_list(s: Seq<u8>, i: int, terminator: u8) -> SpecListParse
    decreases s.len() - i, 1int,
        when 0 <= i <= s.len()
{
    let j = spec_skip_ws(s, i);
    proof {
        lemma_skip_ws_bounds(s, i);
    }
    if j >= s.len() {
        SpecListParse::Eof
    } else if s[j] == terminator {
        SpecListParse::Vals(Seq::empty(), j + 1)
    } else {
        match spec_parse(s, j) {
            SpecParse::Val(v, p) => if j < p <= s.len() {
                match spec_parse_list(s, p, terminator) {
                    SpecListParse::Vals(vs, q) => SpecListParse::Vals(seq![v] + vs, q),
                    SpecListParse::Eof => SpecListParse::Eof,
                    SpecListParse::Delim => SpecListParse::Delim,
                }
            } else {
                SpecListParse::Eof
            },
            SpecParse::Eof => SpecListParse::Eof,
            SpecParse::Delim => SpecListParse::Delim,
        }
    }
}

} // verus!

verus! {

/// `h2` extends `h1`: every block of `h1` stands unchanged at its address
/// in `h2`. Allocation only ever extends the heap.
pub open spec fn heap_extends(h1: Heap, h2: Heap) -> bool {
    &&& h1.obj_store().is_prefix_of(h2.obj_store())
    &&& h1.byte_store().is_prefix_of(h2.byte_store())
}

/// The abstract value a well-formed object denotes against `heap`.
pub open spec fn obj_value(heap: Heap, o: Object) -> SpecValue
    decreases obj_rank(o), 1int, 0int,
        when heap.wf() && heap.obj_wf(o)
{
    if o.tag_is(TypeId::Fixnum) {
        SpecValue::Int(crate::object::fixnum::payload_value(o.word()))
    } else if o.tag_is(TypeId::ObjArray) {
        SpecValue::List(obj_values(heap, obj_rank(o), heap.obj_store()[o.address()].model(), 0))
    } else {
        SpecValue::Atom(heap.byte_store()[o.address()].model())
    }
}

/// The abstract values of `elems[i..]`; `r` bounds every element's rank
/// strictly from above.
pub open spec fn obj_values(heap: Heap, r: nat, elems: Seq<Object>, i: int) -> Seq<SpecValue>
    decreases r, 0int, elems.len() - i,
        when heap.wf() && 0 <= i && (forall|j: int|
            0 <= j < elems.len() ==> heap.obj_wf(#[trigger] elems[j]) && obj_rank(elems[j]) < r)
{
    if i >= elems.len() {
        Seq::empty()
    } else {
        seq![obj_value(heap, elems[i])] + obj_values(heap, r, elems, i + 1)
    }
}

/// Growing the heap never changes the value of an object already well
/// formed against the smaller heap.
pub proof fn lemma_obj_value_stable(h1: Heap, h2: Heap, o: Object)
    requires
        h1.wf(),
        h2.wf(),
        heap_extends(h1, h2),
        h1.obj_wf(o),
    ensures
        h2.obj_wf(o),
        obj_value(h2, o) == obj_value(h1, o),
    decreases obj_rank(o), 1int, 0int,
{
    if o.tag_is(TypeId::ObjArray) {
        let k = o.address();
        assert(h2.obj_store()[k] == h1.obj_store()[k]) by {
            assert(h1.obj_store() =~= h2.obj_store().subrange(0, h1.obj_store().len() as int));
        }
        let elems = h1.obj_store()[k].model();
        let r = obj_rank(o);
        assert forall|j: int|
            0 <= j < elems.len() implies h1.obj_wf(#[trigger] elems[j]) && obj_rank(elems[j])
            < r by {
            assert(h1.elem_wf(k, elems[j]));
        }
        lemma_obj_values_stable(h1, h2, r, elems, 0);
    } else if o.tag_is(TypeId::String) {
        assert(h2.byte_store()[o.address()] == h1.byte_store()[o.address()]) by {
            assert(h1.byte_store() =~= h2.byte_store().subrange(0, h1.byte_store().len() as int));
        }
    }
}

proof fn lemma_obj_values_stable(h1: Heap, h2: Heap, r: nat, elems: Seq<Object>, i: int)
    requires
        h1.wf(),
        h2.wf(),
        heap_extends(h1, h2),
        0 <= i,
        forall|j: int|
            0 <= j < elems.len() ==> h1.obj_wf(#[trigger] elems[j]) && obj_rank(elems[j]) < r,
    ensures
        forall|j: int|
            0 <= j < elems.len() ==> h2.obj_wf(#[trigger] elems[j]) && obj_rank(elems[j]) < r,
        obj_values(h2, r, elems, i) == obj_values(h1, r, elems, i),
    decreases r, 0int, elems.len() - i,
{
    assert forall|j: int|
        0 <= j < elems.len() implies h2.obj_wf(#[trigger] elems[j]) && obj_rank(elems[j]) < r by {
        lemma_obj_value_stable(h1, h2, elems[j]);
    }
    if i < elems.len() {
        lemma_obj_value_stable(h1, h2, elems[i]);
        lemma_obj_values_stable(h1, h2, r, elems, i + 1);
    }
}

} // verus!

verus! {

fn whitespace(byte: u8) -> (b: bool)
    ensures
        b == spec_whitespace(byte),
{
    byte == 32 || byte == 9 || byte == 10
}

fn opening_delim(byte: u8) -> (b: bool)
    ensures
        b == spec_opening_delim(byte),
{
    byte == 40 || byte == 91
}

fn closing_delim(byte: u8) -> (b: bool)
    ensures
        b == spec_closing_delim(byte),
{
    byte == 41 || byte == 93
}

/// The closing delimiter matching an opening one; any other byte here is a
/// programming error, excluded by precondition.
fn matching_delim(byte: u8) -> (m: u8)
    requires
        spec_opening_delim(byte),
    ensures
        m == spec_matching_delim(byte),
{
    if byte == 40 {
        41
    } else {
        93
    }
}

fn atom_constituent(byte: u8) -> (b: bool)
    ensures
        b == spec_atom_constituent(byte),
{
    !(whitespace(byte) || opening_delim(byte) || closing_delim(byte))
}

/// The values of `elems[i..]` listed one by one.
proof fn lemma_obj_values_index(h: Heap, r: nat, elems: Seq<Object>, i: int)
    requires
        h.wf(),
        0 <= i <= elems.len(),
        forall|j: int|
            0 <= j < elems.len() ==> h.obj_wf(#[trigger] elems[j]) && obj_rank(elems[j]) < r,
    ensures
        obj_values(h, r, elems, i).len() == elems.len() - i,
        forall|k: int|
            0 <= k < elems.len() - i ==> obj_values(h, r, elems, i)[k] == obj_value(
                h,
                elems[i + k],
            ),
    decreases elems.len() - i,
{
    if i < elems.len() {
        lemma_obj_values_index(h, r, elems, i + 1);
    }
}

impl Reader {
    fn peek(&self) -> (r: Result<u8, Error>)
        requires
            self.wf(),
        ensures
            match r {
                Ok(b) => self.pos < self.input@.len() && b == self.input@[self.pos as int],
                Err(e) => e == Error::Eof && self.pos == self.input@.len(),
            },
    {
        if self.pos < self.input.len() {
            Ok(self.input[self.pos])
        } else {
            Err(Error::Eof)
        }
    }

    fn getc(&mut self) -> (r: Result<u8, Error>)
        requires
            old(self).wf(),
        ensures
            final(self).wf(),
            final(self).input == old(self).input,
            match r {
                Ok(b) => old(self).pos < old(self).input@.len()
                    && b == old(self).input@[old(self).pos as int]
                    && final(self).pos == old(self).pos + 1,
                Err(e) => e == Error::Eof && old(self).pos == old(self).input@.len()
                    && final(self).pos == old(self).pos,
            },
    {
        if self.pos < self.input.len() {
            let b = self.input[self.pos];
            self.pos = self.pos + 1;
            Ok(b)
        } else {
            Err(Error::Eof)
        }
    }

    /// Consumes the run of whitespace at the reading position. Failure
    /// means the input ended inside it.
    fn consume_whitespace(&mut self) -> (r: Result<(), Error>)
        requires
            old(self).wf(),
        ensures
            final(self).wf(),
            final(self).input == old(self).input,
            old(self).pos <= final(self).pos,
            final(self).pos == spec_skip_ws(old(self).input@, old(self).pos as int),
            match r {
                Ok(u) => final(self).pos < final(self).input@.len() && !spec_whitespace(
                    final(self).input@[final(self).pos as int],
                ),
                Err(e) => e == Error::Eof && final(self).pos == final(self).input@.len(),
            },
    {
        loop
            invariant
                self.wf(),
                self.input == old(self).input,
                old(self).pos <= self.pos,
                spec_skip_ws(self.input@, old(self).pos as int) == spec_skip_ws(
                    self.input@,
                    self.pos as int,
                ),
            decreases self.input@.len() - self.pos,
        {
            match self.peek() {
                Err(e) => {
                    return Err(e);
                },
                Ok(b) => {
                    if whitespace(b) {
                        match self.getc() {
                            Ok(_) => (),
                            Err(_) => vstd::pervasive::unreached(),
                        }
                    } else {
                        return Ok(());
                    }
                },
            }
        }
    }
}

} // verus!

verus! {

/// Composition of list parses: parsing the whole list body
/// from `start` yields `vals` (already parsed) followed by whatever parsing
/// from `mid` yields, with errors passed through.
pub open spec fn list_continues(
    s: Seq<u8>,
    start: int,
    mid: int,
    term: u8,
    vals: Seq<SpecValue>,
) -> bool {
    match spec_parse_list(s, mid, term) {
        SpecListParse::Vals(vs, q) => spec_parse_list(s, start, term) == SpecListParse::Vals(
            vals + vs,
            q,
        ),
        SpecListParse::Eof => spec_parse_list(s, start, term) == SpecListParse::Eof,
        SpecListParse::Delim => spec_parse_list(s, start, term) == SpecListParse::Delim,
    }
}

/// Heap extension composes.
pub proof fn lemma_heap_extends_trans(h1: Heap, h2: Heap, h3: Heap)
    requires
        heap_extends(h1, h2),
        heap_extends(h2, h3),
    ensures
        heap_extends(h1, h3),
{
    assert(h1.obj_store() =~= h3.obj_store().subrange(0, h1.obj_store().len() as int));
    assert(h1.byte_store() =~= h3.byte_store().subrange(0, h1.byte_store().len() as int));
}

/// Skipping whitespace twice is the same as skipping it once.
pub proof fn lemma_skip_ws_idem(s: Seq<u8>, i: int)
    requires
        0 <= i <= s.len(),
    ensures
        spec_skip_ws(s, spec_skip_ws(s, i)) == spec_skip_ws(s, i),
    decreases s.len() - i,
{
    lemma_skip_ws_bounds(s, i);
    if i < s.len() && spec_whitespace(s[i]) {
        lemma_skip_ws_idem(s, i + 1);
    }
}

/// Parsing list elements is insensitive to leading whitespace.
proof fn lemma_parse_list_skip_ws(s: Seq<u8>, i: int, t: u8)
    requires
        0 <= i <= s.len(),
    ensures
        spec_parse_list(s, i, t) == spec_parse_list(s, spec_skip_ws(s, i), t),
{
    lemma_skip_ws_bounds(s, i);
    lemma_skip_ws_idem(s, i);
}

impl Reader {
    /// Reads one top-level form and produces the object it denotes,
    /// allocating into `heap`. The result is exactly what the grammar's
    /// parse of the input at the reading position yields: an atom becomes a
    /// byte array, a delimited list an object array of its elements, end of
    /// input mid-form reports Eof, and a closing delimiter where a form was
    /// expected reports UnexpectedDelim.
    pub fn read(&mut self, heap: &mut Heap) -> (r: Result<Object, Error>)
        requires
            old(self).wf(),
            old(heap).wf(),
            old(heap).obj_store().len() + (old(self).input@.len() - old(self).pos)
                <= HEAP_CAPACITY,
            old(heap).byte_store().len() + (old(self).input@.len() - old(self).pos)
                <= HEAP_CAPACITY,
        ensures
            final(self).wf(),
            final(self).input == old(self).input,
            old(self).pos <= final(self).pos,
            final(heap).wf(),
            heap_extends(*old(heap), *final(heap)),
            final(heap).obj_store().len() <= old(heap).obj_store().len() + (final(self).pos
                - old(self).pos),
            final(heap).byte_store().len() <= old(heap).byte_store().len() + (final(self).pos
                - old(self).pos),
            match r {
                Ok(o) => final(heap).obj_wf(o) && old(self).pos < final(self).pos && spec_parse(
                    old(self).input@,
                    old(self).pos as int,
                ) == SpecParse::Val(obj_value(*final(heap), o), final(self).pos as int),
                Err(e) => match e {
                    Error::Eof => spec_parse(old(self).input@, old(self).pos as int)
                        == SpecParse::Eof,
                    Error::UnexpectedDelim => spec_parse(old(self).input@, old(self).pos as int)
                        == SpecParse::Delim,
                },
            },
        decreases self.input@.len() - self.pos, 1int,
    {
        match self.consume_whitespace() {
            Err(e) => {
                return Err(e);
            },
            Ok(_) => (),
        }
        let byte = match self.peek() {
            Ok(b) => b,
            Err(_) => vstd::pervasive::unreached(),
        };
        if opening_delim(byte) {
            self.read_array(heap)
        } else if atom_constituent(byte) {
            self.read_atom(heap)
        } else {
            proof {
                assert(spec_closing_delim(byte));
            }
            Err(Error::UnexpectedDelim)
        }
    }

    /// Reads a delimited list: the opening delimiter, each element in turn,
    /// and the matching closing delimiter, then allocates the object array
    /// of the elements.
    fn read_array(&mut self, heap: &mut Heap) -> (r: Result<Object, Error>)
        requires
            old(self).wf(),
            old(heap).wf(),
            old(self).pos < old(self).input@.len(),
            spec_opening_delim(old(self).input@[old(self).pos as int]),
            old(heap).obj_store().len() + (old(self).input@.len() - old(self).pos)
                <= HEAP_CAPACITY,
            old(heap).byte_store().len() + (old(self).input@.len() - old(self).pos)
                <= HEAP_CAPACITY,
        ensures
            final(self).wf(),
            final(self).input == old(self).input,
            old(self).pos <= final(self).pos,
            final(heap).wf(),
            heap_extends(*old(heap), *final(heap)),
            final(heap).obj_store().len() <= old(heap).obj_store().len() + (final(self).pos
                - old(self).pos),
            final(heap).byte_store().len() <= old(heap).byte_store().len() + (final(self).pos
                - old(self).pos),
            match r {
                Ok(o) => final(heap).obj_wf(o) && old(self).pos < final(self).pos && (
                spec_parse_list(
                    old(self).input@,
                    old(self).pos + 1,
                    spec_matching_delim(old(self).input@[old(self).pos as int]),
                ) matches SpecListParse::Vals(vs, q) && q == final(self).pos as int && obj_value(
                    *final(heap),
                    o,
                ) == SpecValue::List(vs)),
                Err(e) => match e {
                    Error::Eof => spec_parse_list(
                        old(self).input@,
                        old(self).pos + 1,
                        spec_matching_delim(old(self).input@[old(self).pos as int]),
                    ) == SpecListParse::Eof,
                    Error::UnexpectedDelim => spec_parse_list(
                        old(self).input@,
                        old(self).pos + 1,
                        spec_matching_delim(old(self).input@[old(self).pos as int]),
                    ) == SpecListParse::Delim,
                },
            },
        decreases self.input@.len() - self.pos, 0int,
    {
        let ghost s = self.input@;
        let ghost p0 = self.pos as int;
        let opener = match self.getc() {
            Ok(b) => b,
            Err(_) => vstd::pervasive::unreached(),
        };
        let terminator = matching_delim(opener);
        let mut elements: Vec<Object> = Vec::new();
        let ghost mut vals: Seq<SpecValue> = Seq::empty();
        proof {
            match spec_parse_list(s, p0 + 1, terminator) {
                SpecListParse::Vals(vs, q) => {
                    assert(Seq::<SpecValue>::empty() + vs =~= vs);
                },
                SpecListParse::Eof => {},
                SpecListParse::Delim => {},
            }
        }
        loop
            invariant
                self.wf(),
                self.input == old(self).input,
                s == old(self).input@,
                p0 == old(self).pos,
                p0 + 1 <= self.pos <= s.len(),
                terminator == spec_matching_delim(s[p0]),
                heap.wf(),
                heap_extends(*old(heap), *heap),
                heap.obj_store().len() + 1 <= old(heap).obj_store().len() + (self.pos - p0),
                heap.byte_store().len() + 1 <= old(heap).byte_store().len() + (self.pos - p0),
                old(heap).obj_store().len() + (s.len() - p0) <= HEAP_CAPACITY,
                old(heap).byte_store().len() + (s.len() - p0) <= HEAP_CAPACITY,
                elements@.len() == vals.len(),
                elements@.len() + p0 + 1 <= self.pos,
                forall|j: int| 0 <= j < elements@.len() ==> heap.obj_wf(#[trigger] elements@[j]),
                forall|j: int|
                    0 <= j < elements@.len() ==> obj_value(*heap, #[trigger] elements@[j])
                        == vals[j],
                list_continues(s, p0 + 1, self.pos as int, terminator, vals),
            decreases s.len() - self.pos,
        {
            let ghost pos_entry = self.pos as int;
            match self.consume_whitespace() {
                Err(e) => {
                    proof {
                        lemma_parse_list_skip_ws(s, pos_entry, terminator);
                    }
                    return Err(e);
                },
                Ok(_) => (),
            }
            proof {
                lemma_parse_list_skip_ws(s, pos_entry, terminator);
                assert(list_continues(s, p0 + 1, self.pos as int, terminator, vals));
            }
            let byte = match self.peek() {
                Ok(b) => b,
                Err(_) => vstd::pervasive::unreached(),
            };
            if byte != terminator {
                let ghost h_before = *heap;
                let ghost pos_before = self.pos as int;
                proof {
                    assert(spec_skip_ws(s, pos_before) == pos_before);
                }
                let o = match self.read(heap) {
                    Ok(o) => o,
                    Err(e) => {
                        return Err(e);
                    },
                };
                elements.push(o);
                proof {
                    let v = obj_value(*heap, o);
                    assert forall|j: int|
                        0 <= j < elements@.len() - 1 implies heap.obj_wf(#[trigger] elements@[j])
                        && obj_value(*heap, elements@[j]) == vals[j] by {
                        lemma_obj_value_stable(h_before, *heap, elements@[j]);
                    }
                    lemma_heap_extends_trans(*old(heap), h_before, *heap);
                    let pos_after = self.pos as int;
                    assert(spec_parse(s, pos_before) == SpecParse::Val(v, pos_after));
                    assert(spec_parse_list(s, pos_before, terminator) == (
                    match spec_parse_list(s, pos_after, terminator) {
                        SpecListParse::Vals(vs2, q2) => SpecListParse::Vals(seq![v] + vs2, q2),
                        SpecListParse::Eof => SpecListParse::Eof,
                        SpecListParse::Delim => SpecListParse::Delim,
                    }));
                    let old_vals = vals;
                    vals = vals.push(v);
                    match spec_parse_list(s, pos_after, terminator) {
                        SpecListParse::Vals(vs2, q2) => {
                            assert(old_vals + (seq![v] + vs2) =~= vals + vs2);
                            assert(spec_parse_list(s, p0 + 1, terminator) == SpecListParse::Vals(
                                vals + vs2,
                                q2,
                            ));
                        },
                        SpecListParse::Eof => {},
                        SpecListParse::Delim => {},
                    }
                }
            } else {
                let ghost pos_t = self.pos as int;
                proof {
                    assert(spec_skip_ws(s, pos_t) == pos_t);
                    assert(spec_parse_list(s, pos_t, terminator) == SpecListParse::Vals(
                        Seq::<SpecValue>::empty(),
                        pos_t + 1,
                    ));
                }
                match self.getc() {
                    Ok(_) => (),
                    Err(_) => vstd::pervasive::unreached(),
                }
                let ghost h1 = *heap;
                let p = GcPtr::<Array<Object>>::alloc_array(heap, &elements);
                let o = Object::from_gc_ptr(p);
                proof {
                    assert(h1.obj_store() =~= heap.obj_store().subrange(
                        0,
                        h1.obj_store().len() as int,
                    ));
                    assert(heap_extends(h1, *heap));
                    lemma_heap_extends_trans(*old(heap), h1, *heap);
                    let k = p.address();
                    let elems = heap.obj_store()[k].model();
                    let rk = obj_rank(Object::from_word(p.word()));
                    assert(o == Object::from_word(p.word()));
                    assert forall|j: int|
                        0 <= j < elems.len() implies heap.obj_wf(#[trigger] elems[j]) && obj_rank(
                        elems[j],
                    ) < rk && obj_value(*heap, elems[j]) == vals[j] by {
                        assert(elems[j] == elements@[j]);
                        lemma_obj_value_stable(h1, *heap, elems[j]);
                    }
                    lemma_obj_values_index(*heap, rk, elems, 0);
                    assert(obj_values(*heap, rk, elems, 0) =~= vals);
                    assert(vals + Seq::<SpecValue>::empty() =~= vals);
                }
                return Ok(o);
            }
        }
    }

    /// Reads the maximal run of atom-constituent bytes at the reading
    /// position and allocates the byte array holding it.
    fn read_atom(&mut self, heap: &mut Heap) -> (r: Result<Object, Error>)
        requires
            old(self).wf(),
            old(heap).wf(),
            old(self).pos < old(self).input@.len(),
            spec_atom_constituent(old(self).input@[old(self).pos as int]),
            old(heap).byte_store().len() + (old(self).input@.len() - old(self).pos)
                <= HEAP_CAPACITY,
        ensures
            final(self).wf(),
            final(self).input == old(self).input,
            old(self).pos <= final(self).pos,
            final(heap).wf(),
            heap_extends(*old(heap), *final(heap)),
            final(heap).obj_store() == old(heap).obj_store(),
            final(heap).byte_store().len() <= old(heap).byte_store().len() + 1,
            match r {
                Ok(o) => final(heap).obj_wf(o) && old(self).pos < final(self).pos
                    && final(self).pos as int == spec_atom_end(old(self).input@, old(self).pos as int)
                    && final(self).pos < final(self).input@.len()
                    && obj_value(*final(heap), o) == SpecValue::Atom(
                    old(self).input@.subrange(old(self).pos as int, final(self).pos as int),
                ),
                Err(e) => e == Error::Eof && spec_atom_end(old(self).input@, old(self).pos as int)
                    == old(self).input@.len() && final(self).pos == final(self).input@.len(),
            },
    {
        let ghost s = self.input@;
        let ghost p0 = self.pos as int;
        let mut chars: Vec<u8> = Vec::new();
        loop
            invariant
                self.wf(),
                self.input == old(self).input,
                s == old(self).input@,
                p0 == old(self).pos,
                p0 <= self.pos <= s.len(),
                spec_atom_constituent(s[p0]),
                chars@ == s.subrange(p0, self.pos as int),
                spec_atom_end(s, p0) == spec_atom_end(s, self.pos as int),
                *heap == *old(heap),
                old(heap).wf(),
                old(heap).byte_store().len() + (s.len() - p0) <= HEAP_CAPACITY,
            decreases s.len() - self.pos,
        {
            match self.peek() {
                Err(_) => {
                    return Err(Error::Eof);
                },
                Ok(byte) => {
                    if atom_constituent(byte) {
                        let c = match self.getc() {
                            Ok(c) => c,
                            Err(_) => vstd::pervasive::unreached(),
                        };
                        chars.push(c);
                        proof {
                            assert(chars@ =~= s.subrange(p0, self.pos as int));
                        }
                    } else {
                        proof {
                            lemma_atom_end_bounds(s, p0);
                            assert(chars@.len() <= HEAP_CAPACITY);
                        }
                        let p = GcPtr::<Array<u8>>::alloc_array(heap, &chars);
                        let o = Object::from_gc_ptr(p);
                        proof {
                            assert(o == Object::from_word(p.word()));
                        }
                        return Ok(o);
                    }
                },
            }
        }
    }
}

} // verus!
