use chip8::state::{Byte, TwoBytes, Memory, DataRegisters};

#[test]
fn state_memory_indexing() {
    let mut cut = Memory::new(2);
    assert_eq!(cut.get(1), Byte::from(0));
    cut.set(1, Byte::from(2));
    assert_eq!(cut.get(1), Byte::from(2));
    assert_eq!(cut.get(1).as_usize(), 2);
}

#[test]
fn state_data_registers_indexing() {
    let mut cut = DataRegisters::new(2);
    assert_eq!(cut.get(1), Byte::from(0));
    cut.set(1, Byte::from(2));
    assert_eq!(cut.get(1), Byte::from(2));
    assert_eq!(cut.get(1).as_usize(), 2);
}

#[test]
fn state_byte() {
    let cut = Byte::from(0b0001_0100);
    assert_eq!(cut.get_bit(0), false);
    assert_eq!(cut.get_bit(1), false);
    assert_eq!(cut.get_bit(2), true);
    assert_eq!(cut.get_bit(3), false);
    assert_eq!(cut.get_bit(4), true);
    assert_eq!(cut.get_bit(5), false);
    assert_eq!(cut.get_bit(6), false);
    assert_eq!(cut.get_bit(7), false);

    assert_eq!(cut.as_usize(), 20);

    assert_eq!(cut.shift_left(4), Byte::from(0b0100_0000));
    assert_eq!(cut.shift_right(4), Byte::from(0b0000_0001));
}

#[test]
fn state_two_bytes() {
    let cut = TwoBytes::from(0b0000_1110_0000_0000);
    assert_eq!(cut.get_bit(8), false);
    assert_eq!(cut.get_bit(9), true);
    assert_eq!(cut.get_bit(10), true);
    assert_eq!(cut.get_bit(11), true);
    assert_eq!(cut.get_bit(12), false);
    assert_eq!(cut.get_bit(13), false);
    assert_eq!(cut.get_bit(14), false);
    assert_eq!(cut.get_bit(15), false);

    assert_eq!(cut.as_usize(), 3584);

    assert_eq!(cut.shift_left(4), TwoBytes::from(0b1110_0000_0000_0000));
    assert_eq!(cut.shift_right(4), TwoBytes::from(0b0000_0000_1110_0000));
}

#[test]
fn structs_memory_indexing() {
    let mut cut = Memory::new(2);
    assert_eq!(cut.get(1), Byte::from(0));
    cut.set(1, Byte::from(2));
    assert_eq!(cut.get(1), Byte::from(2));
    assert_eq!(cut.len(), 2);
}

#[test]
fn structs_data_registers_indexing() {
    let mut cut = DataRegisters::new(2);
    assert_eq!(cut.get(1), Byte::from(0));
    cut.set(1, Byte::from(2));
    assert_eq!(cut.get(1), Byte::from(2));
    assert_eq!(cut.len(), 2);
}

#[test]
fn structs_byte() {
    let cut = Byte::from(0b0001_0100);
    assert_eq!(cut.get_bit(0), false);
    assert_eq!(cut.get_bit(1), false);
    assert_eq!(cut.get_bit(2), true);
    assert_eq!(cut.get_bit(3), false);
    assert_eq!(cut.get_bit(4), true);
    assert_eq!(cut.get_bit(5), false);
    assert_eq!(cut.get_bit(6), false);
    assert_eq!(cut.get_bit(7), false);

    assert_eq!(cut.as_usize(), 20);

    assert_eq!(cut.shift_left(4), Byte::from(0b0100_0000));
    assert_eq!(cut.shift_right(4), Byte::from(0b0000_0001));

    assert_eq!(Byte::from(0b1111_1111).add(0b0000_0010), Byte::from(0b0000_0001));
    assert_eq!(
        Byte::from(0b1111_1111).add_byte(Byte::from(0b0000_0010)),
        Byte::from(0b0000_0001)
    );
}

#[test]
fn structs_two_bytes() {
    let cut = TwoBytes::from(0b0000_1110_0000_0000);
    assert_eq!(cut.get_bit(8), false);
    assert_eq!(cut.get_bit(9), true);
    assert_eq!(cut.get_bit(10), true);
    assert_eq!(cut.get_bit(11), true);
    assert_eq!(cut.get_bit(12), false);
    assert_eq!(cut.get_bit(13), false);
    assert_eq!(cut.get_bit(14), false);
    assert_eq!(cut.get_bit(15), false);

    assert_eq!(cut.as_usize(), 3584);

    assert_eq!(cut.shift_left(4), TwoBytes::from(0b1110_0000_0000_0000));
    assert_eq!(cut.shift_right(4), TwoBytes::from(0b0000_0000_1110_0000));
}

#[test]
fn two_bytes_arithmetic() {
    let mut w = TwoBytes::from(0x1200);
    w.increase(0x34);
    assert_eq!(w.as_usize(), 0x1234);
    w.increase_with_byte(Byte::from(0x10));
    assert_eq!(w.as_usize(), 0x1244);
    assert_eq!(w.add(0x100).as_usize(), 0x1344);
    assert_eq!(w.add_byte(Byte::from(0xFF)).as_usize(), 0x1343);
    assert_eq!(w.as_byte(), Byte::from(0x44));
    assert_eq!(w.mask_bits(&TwoBytes::from(0x0F00)).as_usize(), 0x0200);
}

#[test]
fn memory_word_fetch() {
    let mut m = Memory::new(16);
    m.set(4, Byte::from(0xAB));
    m.set(5, Byte::from(0xCD));
    assert_eq!(m.get_two_bytes(TwoBytes::from(4)).as_usize(), 0xABCD);
}

#[test]
fn register_fields_of_instruction_word() {
    let mut r = DataRegisters::new(16);
    let word = TwoBytes::from(0x8A50);
    r.set_x(word, Byte::from(7));
    assert_eq!(r.get(0xA), Byte::from(7));
    assert_eq!(r.get_x(word), Byte::from(7));
    r.set_y(word, Byte::from(9));
    assert_eq!(r.get(0x5), Byte::from(9));
    assert_eq!(r.get_y(word), Byte::from(9));
    r.set_f(true);
    assert_eq!(r.get_f(), Byte::from(1));
    r.set_f(false);
    assert_eq!(r.get_f(), Byte::from(0));
    assert_eq!(r.get_0(), Byte::from(0));
}
