use vstd::prelude::*;
use vstd::arithmetic::div_mod::{
    lemma_div_nonincreasing, lemma_div_pos_is_pos, lemma_fundamental_div_mod,
    lemma_mod_division_less_than_divisor,
};
use vstd::arithmetic::mul::lemma_mul_unary_negation;
use crate::object::tag::{add_tag, spec_add_tag, spec_tag_byte, PAYLOAD_MASK};
use crate::object::typeinfo::{Immediate, Type, TypeId};
use crate::object::word::Word;

verus! {

/// Bit 55 of a word: the sign bit of the 56-bit two's-complement payload.
pub const SIGN_BIT: u64 = 0x0080_0000_0000_0000;

/// 2^56: the modulus of the payload's two's-complement encoding.
pub const PAYLOAD_MODULUS: u64 = 0x0100_0000_0000_0000;

/// The smallest representable fixnum value: -(2^55).
pub const FIX_MIN: i64 = -0x0080_0000_0000_0000;

/// The largest representable fixnum value: 2^55 - 1.
pub const FIX_MAX: i64 = 0x007f_ffff_ffff_ffff;

/// Whether `i` lies in the representable fixnum range.
pub open spec fn in_fixnum_range(i: int) -> bool {
    FIX_MIN <= i <= FIX_MAX
}

/// The signed integer held in the low 56 bits of `u`, read as 56-bit
/// two's complement: the sign bit at bit 55 decides whether the payload
/// stands for itself or for itself minus 2^56.
pub open spec fn payload_value(u: u64) -> int {
    if u & SIGN_BIT == 0 {
        (u & PAYLOAD_MASK) as int
    } else {
        (u & PAYLOAD_MASK) - PAYLOAD_MODULUS
    }
}

/// The 56-bit two's-complement bit pattern of `i`, with the high byte clear.
pub open spec fn spec_encode(i: int) -> u64 {
    if i >= 0 {
        i as u64
    } else {
        (i + PAYLOAD_MODULUS) as u64
    }
}

/// The immediate signed-integer representation: a tagged word whose low
/// 56 bits hold the value in two's complement. The Fixnum tag byte is zero,
/// so sign handling and tagging coexist in the high byte.
#[derive(Clone, Copy, PartialEq, Eq, Structural)]
pub struct Fixnum(pub u64);

impl Type for Fixnum {
    open spec fn type_id() -> TypeId {
        TypeId::Fixnum
    }

    fn id() -> TypeId {
        TypeId::Fixnum
    }
}

impl Immediate for Fixnum {

}

impl Word for Fixnum {
    open spec fn word(self) -> u64 {
        self.0
    }

    fn to_u64(self) -> u64 {
        self.0
    }

    fn from_u64(u: u64) -> Self {
        Fixnum(u)
    }
}

impl Fixnum {
    /// A well-formed fixnum word carries the Fixnum tag in its high byte.
    pub open spec fn wf(self) -> bool {
        spec_tag_byte(self.0) == TypeId::Fixnum.spec_byte()
    }

    /// The signed integer this fixnum stands for.
    pub open spec fn value(self) -> int {
        payload_value(self.0)
    }

    /// The value as a 64-bit signed machine integer (the value always fits).
    pub open spec fn val64(self) -> i64 {
        self.value() as i64
    }

    pub fn to_i64(self) -> (i: i64)
        ensures
            i as int == self.value(),
            i == self.val64(),
    {
        proof {
            lemma_payload_value_in_range(self.0);
        }
        make_signed(self.0)
    }

    pub fn from_i64(i: i64) -> (r: Fixnum)
        requires
            in_fixnum_range(i as int),
        ensures
            r.wf(),
            r.value() == i as int,
            r.word() == spec_encode(i as int),
    {
        Fixnum::from_u64(make_unsigned(i))
    }
}

/// The decoded value of any word lies in the representable range.
pub proof fn lemma_payload_value_in_range(u: u64)
    ensures
        in_fixnum_range(payload_value(u)),
{
    assert(u & SIGN_BIT == 0 ==> u & PAYLOAD_MASK <= 0x007f_ffff_ffff_ffffu64) by (bit_vector);
    assert(u & SIGN_BIT != 0 ==> u & PAYLOAD_MASK >= 0x0080_0000_0000_0000u64
        && u & PAYLOAD_MASK <= 0x00ff_ffff_ffff_ffffu64) by (bit_vector);
}

/// Fixnum round-trip: decoding the encoding of any in-range integer
/// returns it exactly, and the encoding is injective on that range.
pub proof fn lemma_fixnum_round_trip(i: int, j: int)
    requires
        in_fixnum_range(i),
        in_fixnum_range(j),
    ensures
        payload_value(spec_encode(i)) == i,
        spec_tag_byte(spec_encode(i)) == 0,
        spec_encode(i) == spec_encode(j) ==> i == j,
{
    lemma_encode_decode(i);
    lemma_encode_decode(j);
}

proof fn lemma_encode_decode(i: int)
    requires
        in_fixnum_range(i),
    ensures
        payload_value(spec_encode(i)) == i,
        spec_tag_byte(spec_encode(i)) == 0,
{
    if i >= 0 {
        let u = i as u64;
        assert(u <= 0x007f_ffff_ffff_ffffu64 ==> u & SIGN_BIT == 0 && u & PAYLOAD_MASK == u
            && (u >> 56u64) as u8 == 0) by (bit_vector);
    } else {
        let u = (i + PAYLOAD_MODULUS) as u64;
        assert(0x0080_0000_0000_0000u64 <= u && u <= 0x00ff_ffff_ffff_ffffu64
            ==> u & SIGN_BIT != 0 && u & PAYLOAD_MASK == u && (u >> 56u64) as u8 == 0)
            by (bit_vector);
    }
}

pub fn sign_bit_set(u: u64) -> (b: bool)
    ensures
        b == (u & SIGN_BIT != 0),
{
    (u & SIGN_BIT) != 0
}

/// Decodes the low 56 bits of `u` as a signed integer: reads bits 0 to 55
/// and sign-extends from bit 55, ignoring whatever tag the high byte holds.
pub fn make_signed(u: u64) -> (i: i64)
    ensures
        i as int == payload_value(u),
{
    let p: u64 = u & PAYLOAD_MASK;
    proof {
        assert(u & PAYLOAD_MASK <= 0x00ff_ffff_ffff_ffffu64) by (bit_vector);
        assert((u & SIGN_BIT == 0) == (u & PAYLOAD_MASK < 0x0080_0000_0000_0000u64))
            by (bit_vector);
    }
    if sign_bit_set(u) {
        (p as i64) - 0x0100_0000_0000_0000i64
    } else {
        p as i64
    }
}

/// Encodes an in-range signed integer as its 56-bit two's-complement
/// payload with a clear high byte. Values beyond 56 bits are outside this
/// representation's numeric boundary and are excluded by precondition.
pub fn make_unsigned(i: i64) -> (u: u64)
    requires
        in_fixnum_range(i as int),
    ensures
        u == spec_encode(i as int),
        payload_value(u) == i as int,
        spec_tag_byte(u) == 0,
{
    proof {
        lemma_encode_decode(i as int);
    }
    if i >= 0 {
        i as u64
    } else {
        (i + 0x0100_0000_0000_0000i64) as u64
    }
}

} // verus!

verus! {

/// Truncating (round-toward-zero) signed division, the native semantics.
pub open spec fn trunc_div(a: int, b: int) -> int {
    let q = (vstd::math::abs(a) / vstd::math::abs(b)) as int;
    if (a < 0) != (b < 0) {
        -q
    } else {
        q
    }
}

/// Truncating signed remainder: the remainder left by `trunc_div`, whose
/// sign follows the dividend.
pub open spec fn trunc_rem(a: int, b: int) -> int {
    a - b * trunc_div(a, b)
}

/// Applies `op` to the raw tagged words of two fixnums and re-tags the
/// result. The operation must leave the high byte clear (the payload's
/// consistency boundary); the result is then re-tagged as a Fixnum.
pub fn unsigned_arith<F: FnOnce(u64, u64) -> u64>(lhs: Fixnum, rhs: Fixnum, op: F) -> (r: Fixnum)
    requires
        call_requires(op, (lhs.word(), rhs.word())),
        forall|y: u64| call_ensures(op, (lhs.word(), rhs.word()), y) ==> spec_tag_byte(y) == 0,
    ensures
        r.wf(),
        exists|y: u64|
            #[trigger] call_ensures(op, (lhs.word(), rhs.word()), y) && r.word() == spec_add_tag(
                y,
                TypeId::Fixnum.spec_byte(),
            ) && r.value() == payload_value(y),
{
    let result: u64 = op(lhs.to_u64(), rhs.to_u64());
    let _tag: TypeId = extract_tag_consistency(result);
    let r = Fixnum::from_u64(add_tag(result, TypeId::Fixnum));
    proof {
        assert(spec_tag_byte(spec_add_tag(result, 0)) == 0) by (bit_vector);
        assert(payload_value(spec_add_tag(result, 0)) == payload_value(result)) by {
            assert(spec_add_tag(result, 0) & SIGN_BIT == result & SIGN_BIT
                && spec_add_tag(result, 0) & PAYLOAD_MASK == result & PAYLOAD_MASK)
                by (bit_vector);
        }
    }
    r
}

/// The debug-time consistency check of the raw arithmetic path: the
/// operation's result must already carry the Fixnum tag byte.
fn extract_tag_consistency(result: u64) -> (t: TypeId)
    requires
        spec_tag_byte(result) == 0,
    ensures
        t == TypeId::Fixnum,
{
    let t = crate::object::tag::extract_tag(result);
    proof {
        assert(t.spec_byte() == 0 ==> t == TypeId::Fixnum);
    }
    t
}

/// Applies `op` to the decoded signed values of two fixnums and re-encodes
/// the result. A result beyond the 56-bit range is outside this
/// representation's numeric boundary, excluded by precondition.
pub fn signed_arith<F: FnOnce(i64, i64) -> i64>(lhs: Fixnum, rhs: Fixnum, op: F) -> (r: Fixnum)
    requires
        call_requires(op, (lhs.val64(), rhs.val64())),
        forall|y: i64| call_ensures(op, (lhs.val64(), rhs.val64()), y) ==> in_fixnum_range(y as int),
    ensures
        r.wf(),
        exists|y: i64|
            #[trigger] call_ensures(op, (lhs.val64(), rhs.val64()), y) && r.value() == y as int,
{
    proof {
        lemma_payload_value_in_range(lhs.0);
        lemma_payload_value_in_range(rhs.0);
    }
    let a: i64 = make_signed(lhs.to_u64());
    let b: i64 = make_signed(rhs.to_u64());
    let y: i64 = op(a, b);
    let u: u64 = make_unsigned(y);
    let r = Fixnum::from_u64(add_tag(u, TypeId::Fixnum));
    proof {
        assert(a == lhs.val64() && b == rhs.val64());
        assert(spec_tag_byte(u) == 0 ==> spec_tag_byte(spec_add_tag(u, 0)) == 0
            && spec_add_tag(u, 0) & SIGN_BIT == u & SIGN_BIT
            && spec_add_tag(u, 0) & PAYLOAD_MASK == u & PAYLOAD_MASK) by (bit_vector);
    }
    r
}

} // verus!
verus! {

fn add_op(x: i64, y: i64) -> (z: i64)
    requires
        in_fixnum_range(x + y),
    ensures
        z == x + y,
{
    x + y
}

fn sub_op(x: i64, y: i64) -> (z: i64)
    requires
        in_fixnum_range(x - y),
    ensures
        z == x - y,
{
    x - y
}

fn mul_op(x: i64, y: i64) -> (z: i64)
    requires
        in_fixnum_range(x * y),
    ensures
        z == x * y,
{
    x * y
}

impl Fixnum {
    /// Addition with native signed semantics; the true sum must stay in range.
    pub fn plus(self, rhs: Fixnum) -> (r: Fixnum)
        requires
            self.wf(),
            rhs.wf(),
            in_fixnum_range(self.value() + rhs.value()),
        ensures
            r.wf(),
            r.value() == self.value() + rhs.value(),
    {
        proof {
            lemma_payload_value_in_range(self.0);
            lemma_payload_value_in_range(rhs.0);
        }
        signed_arith(self, rhs, add_op)
    }

    /// Subtraction with native signed semantics; the true difference must
    /// stay in range.
    pub fn minus(self, rhs: Fixnum) -> (r: Fixnum)
        requires
            self.wf(),
            rhs.wf(),
            in_fixnum_range(self.value() - rhs.value()),
        ensures
            r.wf(),
            r.value() == self.value() - rhs.value(),
    {
        proof {
            lemma_payload_value_in_range(self.0);
            lemma_payload_value_in_range(rhs.0);
        }
        signed_arith(self, rhs, sub_op)
    }

    /// Multiplication with native signed semantics; the true product must
    /// stay in range.
    pub fn times(self, rhs: Fixnum) -> (r: Fixnum)
        requires
            self.wf(),
            rhs.wf(),
            in_fixnum_range(self.value() * rhs.value()),
        ensures
            r.wf(),
            r.value() == self.value() * rhs.value(),
    {
        proof {
            lemma_payload_value_in_range(self.0);
            lemma_payload_value_in_range(rhs.0);
        }
        signed_arith(self, rhs, mul_op)
    }
}

} // verus!

verus! {

fn bitand_op(x: i64, y: i64) -> (z: i64)
    requires
        in_fixnum_range(x as int),
        in_fixnum_range(y as int),
    ensures
        z == (x & y),
        in_fixnum_range(z as int),
{
    proof {
        assert(-0x0080_0000_0000_0000i64 <= x && x <= 0x007f_ffff_ffff_ffffi64
            && -0x0080_0000_0000_0000i64 <= y && y <= 0x007f_ffff_ffff_ffffi64
            ==> -0x0080_0000_0000_0000i64 <= (x & y) && (x & y) <= 0x007f_ffff_ffff_ffffi64)
            by (bit_vector);
    }
    x & y
}

fn bitor_op(x: i64, y: i64) -> (z: i64)
    requires
        in_fixnum_range(x as int),
        in_fixnum_range(y as int),
    ensures
        z == (x | y),
        in_fixnum_range(z as int),
{
    proof {
        assert(-0x0080_0000_0000_0000i64 <= x && x <= 0x007f_ffff_ffff_ffffi64
            && -0x0080_0000_0000_0000i64 <= y && y <= 0x007f_ffff_ffff_ffffi64
            ==> -0x0080_0000_0000_0000i64 <= (x | y) && (x | y) <= 0x007f_ffff_ffff_ffffi64)
            by (bit_vector);
    }
    x | y
}

fn bitxor_op(x: i64, y: i64) -> (z: i64)
    requires
        in_fixnum_range(x as int),
        in_fixnum_range(y as int),
    ensures
        z == (x ^ y),
        in_fixnum_range(z as int),
{
    proof {
        assert(-0x0080_0000_0000_0000i64 <= x && x <= 0x007f_ffff_ffff_ffffi64
            && -0x0080_0000_0000_0000i64 <= y && y <= 0x007f_ffff_ffff_ffffi64
            ==> -0x0080_0000_0000_0000i64 <= (x ^ y) && (x ^ y) <= 0x007f_ffff_ffff_ffffi64)
            by (bit_vector);
    }
    x ^ y
}

fn shl_op(x: i64, y: i64) -> (z: i64)
    requires
        0 <= y < 64,
        in_fixnum_range((x << (y as u64)) as int),
    ensures
        z == (x << (y as u64)),
{
    x << (y as u64)
}

fn shr_op(x: i64, y: i64) -> (z: i64)
    requires
        in_fixnum_range(x as int),
        0 <= y < 64,
    ensures
        z == (x >> (y as u64)),
        in_fixnum_range(z as int),
{
    proof {
        assert(-0x0080_0000_0000_0000i64 <= x && x <= 0x007f_ffff_ffff_ffffi64 && 0 <= y && y < 64
            ==> -0x0080_0000_0000_0000i64 <= (x >> (y as u64)) && (x >> (y as u64))
                <= 0x007f_ffff_ffff_ffffi64) by (bit_vector);
    }
    x >> (y as u64)
}

fn div_op(x: i64, y: i64) -> (z: i64)
    requires
        in_fixnum_range(x as int),
        in_fixnum_range(y as int),
        y != 0,
        in_fixnum_range(trunc_div(x as int, y as int)),
    ensures
        z == trunc_div(x as int, y as int),
{
    let xm: u64 = if x < 0 {
        (-x) as u64
    } else {
        x as u64
    };
    let ym: u64 = if y < 0 {
        (-y) as u64
    } else {
        y as u64
    };
    proof {
        lemma_div_pos_is_pos(xm as int, ym as int);
        lemma_div_nonincreasing(xm as int, ym as int);
    }
    let q: u64 = xm / ym;
    if (x < 0) != (y < 0) {
        -(q as i64)
    } else {
        q as i64
    }
}

fn rem_op(x: i64, y: i64) -> (z: i64)
    requires
        in_fixnum_range(x as int),
        in_fixnum_range(y as int),
        y != 0,
    ensures
        z == trunc_rem(x as int, y as int),
        in_fixnum_range(z as int),
{
    let xm: u64 = if x < 0 {
        (-x) as u64
    } else {
        x as u64
    };
    let ym: u64 = if y < 0 {
        (-y) as u64
    } else {
        y as u64
    };
    let m: u64 = xm % ym;
    proof {
        lemma_mod_division_less_than_divisor(xm as int, ym as int);
        lemma_fundamental_div_mod(xm as int, ym as int);
        lemma_div_pos_is_pos(xm as int, ym as int);
        let a = x as int;
        let b = y as int;
        let qm = xm as int / ym as int;
        lemma_mul_unary_negation(ym as int, qm);
        assert(b * trunc_div(a, b) == if b < 0 {
            (-(ym as int)) * (if a < 0 { qm } else { -qm })
        } else {
            (ym as int) * (if a < 0 { -qm } else { qm })
        });
        lemma_mul_unary_negation(b, qm);
    }
    if x < 0 {
        -(m as i64)
    } else {
        m as i64
    }
}

} // verus!

verus! {

impl Fixnum {
    /// Bitwise AND of the decoded signed values (native two's-complement
    /// semantics; the result is always in range).
    pub fn bit_and(self, rhs: Fixnum) -> (r: Fixnum)
        requires
            self.wf(),
            rhs.wf(),
        ensures
            r.wf(),
            r.val64() == (self.val64() & rhs.val64()),
    {
        proof {
            lemma_payload_value_in_range(self.0);
            lemma_payload_value_in_range(rhs.0);
        }
        signed_arith(self, rhs, bitand_op)
    }

    /// Bitwise OR of the decoded signed values.
    pub fn bit_or(self, rhs: Fixnum) -> (r: Fixnum)
        requires
            self.wf(),
            rhs.wf(),
        ensures
            r.wf(),
            r.val64() == (self.val64() | rhs.val64()),
    {
        proof {
            lemma_payload_value_in_range(self.0);
            lemma_payload_value_in_range(rhs.0);
        }
        signed_arith(self, rhs, bitor_op)
    }

    /// Bitwise XOR of the decoded signed values.
    pub fn bit_xor(self, rhs: Fixnum) -> (r: Fixnum)
        requires
            self.wf(),
            rhs.wf(),
        ensures
            r.wf(),
            r.val64() == (self.val64() ^ rhs.val64()),
    {
        proof {
            lemma_payload_value_in_range(self.0);
            lemma_payload_value_in_range(rhs.0);
        }
        signed_arith(self, rhs, bitxor_op)
    }

    /// Left shift of the decoded signed value; the shifted value must stay
    /// in range.
    pub fn shift_left(self, rhs: Fixnum) -> (r: Fixnum)
        requires
            self.wf(),
            rhs.wf(),
            0 <= rhs.value() < 64,
            in_fixnum_range((self.val64() << (rhs.val64() as u64)) as int),
        ensures
            r.wf(),
            r.val64() == (self.val64() << (rhs.val64() as u64)),
    {
        proof {
            lemma_payload_value_in_range(self.0);
            lemma_payload_value_in_range(rhs.0);
        }
        signed_arith(self, rhs, shl_op)
    }

    /// Arithmetic right shift of the decoded signed value (native signed
    /// semantics: the sign bit fills in from the left).
    pub fn shift_right(self, rhs: Fixnum) -> (r: Fixnum)
        requires
            self.wf(),
            rhs.wf(),
            0 <= rhs.value() < 64,
        ensures
            r.wf(),
            r.val64() == (self.val64() >> (rhs.val64() as u64)),
    {
        proof {
            lemma_payload_value_in_range(self.0);
            lemma_payload_value_in_range(rhs.0);
        }
        signed_arith(self, rhs, shr_op)
    }

    /// Truncating division with native signed semantics; the divisor must be
    /// nonzero and the true quotient must stay in range.
    pub fn quotient(self, rhs: Fixnum) -> (r: Fixnum)
        requires
            self.wf(),
            rhs.wf(),
            rhs.value() != 0,
            in_fixnum_range(trunc_div(self.value(), rhs.value())),
        ensures
            r.wf(),
            r.value() == trunc_div(self.value(), rhs.value()),
    {
        proof {
            lemma_payload_value_in_range(self.0);
            lemma_payload_value_in_range(rhs.0);
        }
        signed_arith(self, rhs, div_op)
    }

    /// Truncating remainder with native signed semantics (the sign follows
    /// the dividend); the divisor must be nonzero.
    pub fn remainder(self, rhs: Fixnum) -> (r: Fixnum)
        requires
            self.wf(),
            rhs.wf(),
            rhs.value() != 0,
        ensures
            r.wf(),
            r.value() == trunc_rem(self.value(), rhs.value()),
    {
        proof {
            lemma_payload_value_in_range(self.0);
            lemma_payload_value_in_range(rhs.0);
        }
        signed_arith(self, rhs, rem_op)
    }
}

} // verus!

verus! {

impl PartialOrd for Fixnum {
    fn partial_cmp(&self, other: &Self) -> (r: Option<core::cmp::Ordering>) {
        proof {
            lemma_payload_value_in_range(self.0);
            lemma_payload_value_in_range(other.0);
        }
        let a = make_signed(self.0);
        let b = make_signed(other.0);
        if a < b {
            Some(core::cmp::Ordering::Less)
        } else if a == b {
            Some(core::cmp::Ordering::Equal)
        } else {
            Some(core::cmp::Ordering::Greater)
        }
    }
}

impl vstd::std_specs::cmp::PartialOrdSpecImpl for Fixnum {
    open spec fn obeys_partial_cmp_spec() -> bool {
        true
    }

    open spec fn partial_cmp_spec(&self, other: &Self) -> Option<core::cmp::Ordering> {
        if self.value() < other.value() {
            Some(core::cmp::Ordering::Less)
        } else if self.value() == other.value() {
            Some(core::cmp::Ordering::Equal)
        } else {
            Some(core::cmp::Ordering::Greater)
        }
    }
}

} // verus!
