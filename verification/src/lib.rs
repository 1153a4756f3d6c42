//! The object-representation layer of a small language runtime: every
//! value is one 64-bit word with a one-byte type tag in the high byte.
//! Small signed integers (fixnums) live entirely in the 56 payload bits;
//! aggregates (object arrays and byte arrays) live on a heap and the word
//! holds their tagged address. A reader parses byte input into objects over
//! a minimal parenthesized-list grammar, and a printer serializes objects
//! back to bytes.

pub mod object;
pub mod printer;
pub mod reader;

pub use object::array::{lemma_array_round_trip, Array, ARRAY_ALIGN, ARRAY_HEADER_SIZE};
pub use object::fixnum::{
    in_fixnum_range, lemma_fixnum_round_trip, make_signed, make_unsigned, payload_value,
    sign_bit_set, signed_arith, spec_encode, trunc_div, trunc_rem, unsigned_arith, Fixnum, FIX_MAX,
    FIX_MIN,
};
pub use object::gc_ptr::{is_aligned, GcPtr};
pub use object::heap::{Heap, HEAP_CAPACITY};
pub use object::tag::{add_tag, extract_tag, lemma_tag_round_trip, remove_tag};
pub use object::typeinfo::{Boxed, FixedSize, Immediate, Type, TypeId};
pub use object::word::Word;
pub use object::Object;
pub use printer::Printer;
pub use reader::Reader;
