use vstd::prelude::*;
use crate::object::typeinfo::{TypeId, MAX_TYPE_ID_BYTE};
use crate::object::word::Word;

verus! {

/// Number of payload bits below the tag byte.
pub const TAG_SHIFT: u64 = 56;

/// The tag byte: bits 56 to 63 of a word.
pub const TAG_MASK: u64 = 0xff00_0000_0000_0000;

/// The payload: bits 0 to 55 of a word.
pub const PAYLOAD_MASK: u64 = 0x00ff_ffff_ffff_ffff;

/// The tag byte of a word.
pub open spec fn spec_tag_byte(w: u64) -> u8 {
    (w >> TAG_SHIFT) as u8
}

/// The word with its tag byte cleared.
pub open spec fn spec_remove_tag(w: u64) -> u64 {
    w & PAYLOAD_MASK
}

/// The word with its tag byte cleared and then set to `b`.
pub open spec fn spec_add_tag(w: u64, b: u8) -> u64 {
    (w & PAYLOAD_MASK) | ((b as u64) << TAG_SHIFT)
}

/// Reads the tag byte and maps it to a TypeId. The discriminant space is
/// closed: a word carrying an unrecognized byte is a programming error,
/// excluded by precondition.
pub fn extract_tag<W: Word>(word: W) -> (t: TypeId)
    requires
        spec_tag_byte(word.word()) <= MAX_TYPE_ID_BYTE,
    ensures
        t.spec_byte() == spec_tag_byte(word.word()),
{
    let w: u64 = word.to_u64();
    let b: u8 = ((w & TAG_MASK) >> TAG_SHIFT) as u8;
    proof {
        assert(((w & TAG_MASK) >> TAG_SHIFT) as u8 == spec_tag_byte(w)) by (bit_vector);
    }
    TypeId::from_byte(b)
}

/// Clears bits 56 to 63 of the word.
pub fn remove_tag<W: Word>(word: W) -> (r: W)
    ensures
        r.word() == spec_remove_tag(word.word()),
{
    let w: u64 = word.to_u64();
    W::from_u64(w & PAYLOAD_MASK)
}

/// Clears bits 56 to 63 of the word, then sets them to `tag`.
pub fn add_tag<W: Word>(word: W, tag: TypeId) -> (r: W)
    ensures
        r.word() == spec_add_tag(word.word(), tag.spec_byte()),
{
    let t: u64 = (tag.byte() as u64) << TAG_SHIFT;
    let w: u64 = remove_tag(word).to_u64();
    W::from_u64(w | t)
}

/// Tag round-trip: tagging a word whose tag byte is clear (as every
/// validly-aligned 56-bit address is), then clearing or reading the tag,
/// recovers the original word and the tag exactly.
pub proof fn lemma_tag_round_trip(p: u64, t: TypeId)
    requires
        spec_tag_byte(p) == 0,
    ensures
        spec_remove_tag(spec_add_tag(p, t.spec_byte())) == p,
        spec_tag_byte(spec_add_tag(p, t.spec_byte())) == t.spec_byte(),
{
    let b = t.spec_byte();
    assert(spec_remove_tag(spec_add_tag(p, b)) == p) by (bit_vector)
        requires
            spec_tag_byte(p) == 0,
    ;
    assert(spec_tag_byte(spec_add_tag(p, b)) == b) by (bit_vector);
}

} // verus!
