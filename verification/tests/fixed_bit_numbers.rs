use chip8::fixed_bit_numbers::FixedBitNumber;

#[test]
fn new_number() {
    assert_eq!(FixedBitNumber::<2>::new().into_u32(), 0);
    assert_eq!(FixedBitNumber::<2>::from(3).into_u32(), 3);
    assert_eq!(FixedBitNumber::<2>::from(4).into_u32(), 0);
}

#[test]
fn get_bit() {
    let cut = FixedBitNumber::<2>::from(1);
    assert!(cut.get_bit(0));
    assert!(!cut.get_bit(1));
    assert!(!cut.get_bit(2));
}

#[test]
fn increase() {
    let mut cut = FixedBitNumber::<2>::new();
    assert!(!cut.increase(&FixedBitNumber::<2>::from(2)));
    assert!(cut.increase(&FixedBitNumber::<8>::from(0b1111_1101)));
    assert!(cut.increase(&FixedBitNumber::<1>::from(1)));
    assert_eq!(cut.into_u32(), 0);
    assert!(cut.increase_by_u32(5));
    assert_eq!(cut.into_u32(), 1);
}

#[test]
fn set() {
    let mut cut = FixedBitNumber::<2>::new();
    cut.set_by_u32(15);
    assert_eq!(cut.into_u32(), 3);

    cut.set_take_ownership(FixedBitNumber::<2>::new());
    assert_eq!(cut.into_u32(), 0);

    cut.set(&FixedBitNumber::<2>::from(3));
    assert_eq!(cut.into_u32(), 3);

    cut.set_bool(true);
    assert_eq!(cut.into_u32(), 1);

    cut.set_bool(false);
    assert_eq!(cut.into_u32(), 0);
}

#[test]
fn decrease() {
    let mut cut = FixedBitNumber::<2>::from(1);
    assert!(cut.decrease(&FixedBitNumber::<3>::from(1)));
    assert_eq!(cut.into_u32(), 0);
    assert!(!cut.decrease_by_u32(1));
    assert_eq!(cut.into_u32(), 3);
    cut.set_by_u32(1);
    assert!(cut.reversed_decrease(&FixedBitNumber::<2>::from(3)));
    assert!(!cut.reversed_decrease(&FixedBitNumber::<2>::new()));
    assert_eq!(cut.into_u32(), 2);
}

#[test]
fn shift() {
    let mut cut = FixedBitNumber::<3>::from(0b111);
    assert!(cut.shift_right());
    assert_eq!(cut.into_u32(), 0b011);
    assert!(!cut.shift_left());
    assert_eq!(cut.into_u32(), 0b110);
    cut = FixedBitNumber::<3>::from(0b111);
    assert!(cut.shift_left());
    assert_eq!(cut.into_u32(), 0b110);
}

#[test]
fn logical_ops() {
    let mut cut1 = FixedBitNumber::<3>::from(0b00_110);
    let cut2 = FixedBitNumber::<5>::from(0b10_101);
    cut1.and(&cut2);
    assert_eq!(cut1.into_u32(), 0b100);
    cut1.xor(&cut2);
    assert_eq!(cut1.into_u8(), 0b001u8);
    cut1.or(&cut2);
    assert_eq!(cut1.into_usize(), 0b101usize)
}

#[test]
fn execute_if() {
    let cut = FixedBitNumber::<3>::from(3);
    let mut b = false;
    cut.execute_if_equals(&FixedBitNumber::<2>::from(3), || b = true);
    assert!(b);
    cut.execute_if_equals(&FixedBitNumber::<3>::from(2), || b = true);
    assert!(b);
    cut.execute_if_not_equals(&FixedBitNumber::<3>::from(2), || b = false);
    assert!(!b);
    cut.execute_if_not_equals(&FixedBitNumber::<3>::from(3), || b = true);
    assert!(!b);
}

// masking semantics: loading any value keeps exactly its low N bits
#[test]
fn from_truncates_to_width() {
    assert_eq!(FixedBitNumber::<8>::from(0x1234).into_u32(), 0x34);
    assert_eq!(FixedBitNumber::<12>::from(0xABCD).into_u32(), 0xBCD);
    assert_eq!(FixedBitNumber::<16>::from(0x1_0000).into_u32(), 0);
    assert_eq!(FixedBitNumber::<16>::from(0x1_2345).into_u32(), 0x2345);
}

// subtracting and re-adding the same smaller value restores the register
// and the subtraction reports "no borrow"
#[test]
fn decrease_increase_round_trip() {
    let mut a = FixedBitNumber::<8>::from(0xC4);
    let b = FixedBitNumber::<8>::from(0x2F);
    assert!(a.decrease(&b));
    assert_eq!(a.into_u32(), 0xC4 - 0x2F);
    a.increase(&b);
    assert_eq!(a.into_u32(), 0xC4);
}

#[test]
fn bitrange_and_combine() {
    let w = FixedBitNumber::<16>::from(0xD275);
    assert_eq!(w.get_bitrange(12, 4).into_u32(), 0xD);
    assert_eq!(w.get_bitrange(8, 4).into_u32(), 0x2);
    assert_eq!(w.get_bitrange(4, 4).into_u32(), 0x7);
    assert_eq!(w.get_bitrange(0, 12).into_u32(), 0x275);
    let hi = FixedBitNumber::<8>::from(0xD2);
    let lo = FixedBitNumber::<8>::from(0x75);
    let c: FixedBitNumber<16> = FixedBitNumber::from_combined(&hi, &lo);
    assert_eq!(c.into_u32(), 0xD275);
}
