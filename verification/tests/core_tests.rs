use ploy::{
    add_tag, extract_tag, remove_tag, Array, Fixnum, GcPtr, Heap, Object, TypeId, Word, FIX_MAX,
    FIX_MIN,
};

#[test]
fn tag_round_trip_all_ids() {
    let addresses: Vec<u64> = vec![0, 1, 8, 4096, 0x00ff_ffff_ffff_ffff];
    let tags = [TypeId::Fixnum, TypeId::ObjArray, TypeId::String];
    for &p in &addresses {
        for &t in &tags {
            let tagged: u64 = add_tag(p, t);
            assert_eq!(remove_tag::<u64>(tagged), p);
            assert_eq!(extract_tag(tagged), t);
        }
    }
}

#[test]
fn fixnum_round_trip_minus_one() {
    let f = Fixnum::from_i64(-1);
    assert_eq!(f.to_i64(), -1);
}

#[test]
fn fixnum_round_trip_bounds() {
    for &i in &[FIX_MIN, FIX_MAX, 0i64, 1, -1, 42, -12345, 0x0040_0000_0000_0000] {
        assert_eq!(Fixnum::from_i64(i).to_i64(), i);
    }
}

#[test]
fn fixnum_encoding_is_injective() {
    let a = Fixnum::from_i64(-2);
    let b = Fixnum::from_i64(2);
    assert!(a.to_u64() != b.to_u64());
}

#[test]
fn fixnum_tag_is_zero_byte() {
    let f = Fixnum::from_i64(-5);
    assert_eq!(extract_tag(f), TypeId::Fixnum);
}

#[test]
fn fixnum_addition() {
    let r = Fixnum::from_i64(2).plus(Fixnum::from_i64(3));
    assert_eq!(r.to_i64(), 5);
    let r = Fixnum::from_i64(-7).plus(Fixnum::from_i64(3));
    assert_eq!(r.to_i64(), -4);
}

#[test]
fn fixnum_subtraction() {
    let r = Fixnum::from_i64(2).minus(Fixnum::from_i64(5));
    assert_eq!(r.to_i64(), -3);
}

#[test]
fn fixnum_multiplication() {
    let r = Fixnum::from_i64(-4).times(Fixnum::from_i64(6));
    assert_eq!(r.to_i64(), -24);
}

#[test]
fn fixnum_division_truncates_toward_zero() {
    assert_eq!(Fixnum::from_i64(-7).quotient(Fixnum::from_i64(2)).to_i64(), -3);
    assert_eq!(Fixnum::from_i64(7).quotient(Fixnum::from_i64(-2)).to_i64(), -3);
    assert_eq!(Fixnum::from_i64(-7).quotient(Fixnum::from_i64(-2)).to_i64(), 3);
    assert_eq!(Fixnum::from_i64(7).quotient(Fixnum::from_i64(2)).to_i64(), 3);
}

#[test]
fn fixnum_remainder_sign_follows_dividend() {
    assert_eq!(Fixnum::from_i64(-7).remainder(Fixnum::from_i64(2)).to_i64(), -1);
    assert_eq!(Fixnum::from_i64(7).remainder(Fixnum::from_i64(-2)).to_i64(), 1);
    assert_eq!(Fixnum::from_i64(7).remainder(Fixnum::from_i64(2)).to_i64(), 1);
}

#[test]
fn fixnum_bitwise() {
    assert_eq!(Fixnum::from_i64(12).bit_and(Fixnum::from_i64(10)).to_i64(), 8);
    assert_eq!(Fixnum::from_i64(12).bit_or(Fixnum::from_i64(10)).to_i64(), 14);
    assert_eq!(Fixnum::from_i64(12).bit_xor(Fixnum::from_i64(10)).to_i64(), 6);
    assert_eq!(Fixnum::from_i64(-1).bit_and(Fixnum::from_i64(77)).to_i64(), 77);
}

#[test]
fn fixnum_shifts() {
    assert_eq!(Fixnum::from_i64(-3).shift_left(Fixnum::from_i64(2)).to_i64(), -12);
    assert_eq!(Fixnum::from_i64(3).shift_left(Fixnum::from_i64(4)).to_i64(), 48);
    assert_eq!(Fixnum::from_i64(-7).shift_right(Fixnum::from_i64(1)).to_i64(), -4);
    assert_eq!(Fixnum::from_i64(7).shift_right(Fixnum::from_i64(1)).to_i64(), 3);
}

#[test]
fn array_round_trip() {
    let mut heap = Heap::new();
    let bytes: Vec<u8> = vec![1, 2, 3];
    let p = GcPtr::<Array<u8>>::alloc_array(&mut heap, &bytes);
    let a = p.deref(&heap);
    assert_eq!(a.len().to_i64(), 3);
    assert!(!a.is_empty());
    for i in 0..3i64 {
        assert_eq!(*a.at(Fixnum::from_i64(i)).unwrap(), (i + 1) as u8);
        assert_eq!(*a.index(Fixnum::from_i64(i)), (i + 1) as u8);
    }
    assert!(a.at(Fixnum::from_i64(3)).is_none());
    assert!(a.at(Fixnum::from_i64(-1)).is_none());
    assert_eq!(a.untagged_body_ptr(), &[1u8, 2, 3]);
}

#[test]
fn object_array_round_trip() {
    let mut heap = Heap::new();
    let elts: Vec<Object> = vec![
        Object::from_fixnum(Fixnum::from_i64(10)),
        Object::from_fixnum(Fixnum::from_i64(-20)),
    ];
    let p = GcPtr::<Array<Object>>::alloc_array(&mut heap, &elts);
    let a = p.deref(&heap);
    assert_eq!(a.len().to_i64(), 2);
    let e0 = a.index(Fixnum::from_i64(0));
    let e1 = a.index(Fixnum::from_i64(1));
    assert_eq!(Fixnum::try_from(*e0).unwrap().to_i64(), 10);
    assert_eq!(Fixnum::try_from(*e1).unwrap().to_i64(), -20);
}

#[test]
fn empty_array_allocates() {
    let mut heap = Heap::new();
    let p = GcPtr::<Array<u8>>::alloc_array(&mut heap, &Vec::new());
    let a = p.deref(&heap);
    assert_eq!(a.len().to_i64(), 0);
    assert!(a.is_empty());
    assert!(a.at(Fixnum::from_i64(0)).is_none());
}

#[test]
fn layout_zero_length_does_not_underflow() {
    let (size, align) = Array::<Object>::layout(0);
    assert_eq!(size, 16);
    assert_eq!(align, 8);
    assert!(size > 0);
    let (size, align) = Array::<u8>::layout(0);
    assert_eq!(size, 16);
    assert_eq!(align, 8);
}

#[test]
fn layout_counts_elements_beyond_the_first() {
    assert_eq!(Array::<Object>::layout(1).0, 16);
    assert_eq!(Array::<Object>::layout(3).0, 32);
    assert_eq!(Array::<u8>::layout(1).0, 16);
    assert_eq!(Array::<u8>::layout(5).0, 20);
}

#[test]
fn downcast_wrong_type_reports_observed_tag() {
    let mut heap = Heap::new();
    let fix_obj = Object::from_fixnum(Fixnum::from_i64(7));
    assert_eq!(GcPtr::<Array<Object>>::try_from(fix_obj).err().unwrap(), TypeId::Fixnum);
    assert_eq!(GcPtr::<Array<u8>>::try_from(fix_obj).err().unwrap(), TypeId::Fixnum);

    let bytes: Vec<u8> = vec![97];
    let p = GcPtr::<Array<u8>>::alloc_array(&mut heap, &bytes);
    let str_obj = Object::from_gc_ptr(p);
    assert_eq!(Fixnum::try_from(str_obj).err().unwrap(), TypeId::String);
    assert_eq!(GcPtr::<Array<Object>>::try_from(str_obj).err().unwrap(), TypeId::String);

    assert_eq!(Fixnum::try_from(fix_obj).unwrap().to_i64(), 7);
    assert!(GcPtr::<Array<u8>>::try_from(str_obj).is_ok());
}

#[test]
fn is_aligned_checks_divisibility() {
    assert!(ploy::is_aligned::<u64>(0));
    assert!(ploy::is_aligned::<u64>(8));
    assert!(!ploy::is_aligned::<u64>(4));
    assert!(ploy::is_aligned::<u8>(3));
}

#[test]
fn word_conversion_is_lossless() {
    let w: u64 = 0x1234_5678_9abc_def0;
    let o = Object::from_u64(w);
    assert_eq!(o.to_u64(), w);
    let f = Fixnum::from_u64(42);
    assert_eq!(f.to_u64(), 42);
}

#[test]
fn signed_arith_applies_native_operation() {
    let a = Fixnum::from_i64(20);
    let b = Fixnum::from_i64(-8);
    let r = ploy::signed_arith(a, b, |x: i64, y: i64| x + y);
    assert_eq!(r.to_i64(), 12);
}

#[test]
fn unsigned_arith_retags_the_raw_result() {
    let a = Fixnum::from_i64(6);
    let b = Fixnum::from_i64(3);
    let r = ploy::unsigned_arith(a, b, |x: u64, y: u64| x | y);
    assert_eq!(r.to_i64(), 7);
    assert_eq!(extract_tag(r), TypeId::Fixnum);
}

#[test]
fn fixnum_comparison_uses_decoded_value() {
    assert!(Fixnum::from_i64(-1) < Fixnum::from_i64(1));
    assert!(Fixnum::from_i64(-5) < Fixnum::from_i64(-4));
    assert!(Fixnum::from_i64(3) > Fixnum::from_i64(2));
    assert!(Fixnum::from_i64(FIX_MIN) < Fixnum::from_i64(FIX_MAX));
    assert!(Fixnum::from_i64(7) == Fixnum::from_i64(7));
}
