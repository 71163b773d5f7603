use chip8::interpreter::{Chip8Interpreter, Chip8Error};
use chip8::output::Output;
use chip8::events::{IncomingEvent, AudioEvent};

fn fresh() -> Chip8Interpreter {
    Chip8Interpreter::new(Output::new(128, 64))
}

fn run(cut: &mut Chip8Interpreter, cycles: usize) {
    let keys: Vec<u8> = Vec::new();
    for _ in 0..cycles {
        assert!(cut.interpret_next(&keys).is_ok());
    }
}

#[test]
fn new_state() {
    let cut = fresh();
    assert_eq!(cut.get_memory_at(4095).into_u32(), 0);
    assert_eq!(cut.get_register(0).into_u32(), 0);
    assert_eq!(cut.get_address_register().into_u32(), 0);
    assert_eq!(cut.stack_len(), 0);
}

#[test]
fn state_new_state() {
    let cut = fresh();
    assert_eq!(cut.get_pc().into_u32(), 0x200);
    assert!(!cut.is_finished());
    assert_eq!(cut.get_delay_timer().into_u32(), 0);
    assert_eq!(cut.get_sound_timer().into_u32(), 0);
}

#[test]
fn goto() {
    let mut cut = fresh();
    cut.load_memory(vec![0x10, 0x11], 0x200);
    assert_eq!(cut.get_pc().into_u32(), 0x200);
    run(&mut cut, 1);
    assert_eq!(cut.get_pc().into_u32(), 0x011);
}

#[test]
fn subroutine() {
    // call a subroutine, then return to the instruction after the call
    let mut cut = fresh();
    cut.load_memory(vec![0x22, 0x04, 0x00, 0x00, 0x00, 0xEE], 0x200);
    assert_eq!(cut.get_pc().into_u32(), 0x200);
    run(&mut cut, 1);
    assert_eq!(cut.get_pc().into_u32(), 0x204);
    assert_eq!(cut.stack_len(), 1);
    run(&mut cut, 1);
    assert_eq!(cut.get_pc().into_u32(), 0x202);
    assert_eq!(cut.stack_len(), 0);
}

#[test]
fn compare_data_registers() {
    // set vx, vy, then compare
    let mut cut = fresh();
    cut.load_memory(
        vec![
            0x60, 0x01, 0x61, 0x01, 0x30, 0x01, 0x00, 0x00, 0x41, 0x00, 0x00, 0x00, 0x50, 0x10,
            0x00, 0x00, 0x90, 0x10,
        ],
        0x200,
    );
    assert_eq!(cut.get_register(0).into_u32(), 0x00);
    run(&mut cut, 1);
    assert_eq!(cut.get_register(0).into_u32(), 0x01);
    assert_eq!(cut.get_register(1).into_u32(), 0x00);
    run(&mut cut, 1);
    assert_eq!(cut.get_register(1).into_u32(), 0x01);
    run(&mut cut, 1);
    assert_eq!(cut.get_pc().into_u32(), 0x208);
    run(&mut cut, 1);
    assert_eq!(cut.get_pc().into_u32(), 0x20c);
    run(&mut cut, 1);
    assert_eq!(cut.get_pc().into_u32(), 0x210);
    run(&mut cut, 1);
    assert_eq!(cut.get_pc().into_u32(), 0x212);
}

#[test]
fn data_register_operations() {
    // set vx, vy, then operate
    let mut cut = fresh();
    cut.load_memory(
        vec![
            0x60, 0x05, // 0 = 5
            0x70, 0x01, // 0 += 1
            0x61, 0x01, // 1 = 1
            0x82, 0x00, // 2 = v0
            0x81, 0x01, // 1 |= v0
            0x81, 0x03, // 1 ^= v0
            0x61, 0x07, // 1 = 7
            0x81, 0x02, // 1 &= v0
            0x81, 0x04, // 1 += v0
            0x61, 0xFF, // 1 = FF
            0x81, 0x04, // 1 += v0
            0x60, 0x02, // 0 = 2
            0x81, 0x05, // 1 -= v0
            0x61, 0x01, // 1 = 1
            0x81, 0x05, // 1 -= v0
            0x60, 0x01, // 0 = 1
            0x61, 0xFF, // 1 = FF
            0x80, 0x06, // 0 >>= 1
            0x81, 0x0E, // 1 <<= 1
            0x60, 0x01, // 0 = 1
            0x80, 0x17, // 0 = v1 - v0
        ],
        0x200,
    );
    run(&mut cut, 1);
    assert_eq!(cut.get_register(0).into_u32(), 0x05);
    run(&mut cut, 1);
    assert_eq!(cut.get_register(0).into_u32(), 0x06);
    run(&mut cut, 1);
    assert_eq!(cut.get_register(1).into_u32(), 0x01);
    run(&mut cut, 1);
    assert_eq!(cut.get_register(2).into_u32(), 0x06);
    run(&mut cut, 1);
    assert_eq!(cut.get_register(1).into_u32(), 0x07);
    run(&mut cut, 1);
    assert_eq!(cut.get_register(1).into_u32(), 0x01);
    run(&mut cut, 2);
    assert_eq!(cut.get_register(1).into_u32(), 0x06);
    run(&mut cut, 1);
    assert_eq!(cut.get_register(1).into_u32(), 0x0c);
    assert_eq!(cut.get_register(0xF).into_u32(), 0x00);
    run(&mut cut, 2);
    assert_eq!(cut.get_register(1).into_u32(), 0x05);
    assert_eq!(cut.get_register(0xF).into_u32(), 0x01);
    run(&mut cut, 2);
    assert_eq!(cut.get_register(1).into_u32(), 0x03);
    assert_eq!(cut.get_register(0xF).into_u32(), 0x01);
    run(&mut cut, 2);
    assert_eq!(cut.get_register(1).into_u32(), 0xFF);
    assert_eq!(cut.get_register(0xF).into_u32(), 0x00);
    run(&mut cut, 3);
    assert_eq!(cut.get_register(0).into_u32(), 0x00);
    assert_eq!(cut.get_register(0xF).into_u32(), 0x01);
    run(&mut cut, 1);
    assert_eq!(cut.get_register(1).into_u32(), 0b1111_1110);
    assert_eq!(cut.get_register(0xF).into_u32(), 0x01);
    run(&mut cut, 2);
    assert_eq!(cut.get_register(0).into_u32(), 0b1111_1101);
    assert_eq!(cut.get_register(0xF).into_u32(), 0x01);
}

#[test]
fn set_adress_register() {
    let mut cut = fresh();
    cut.load_memory(vec![0xA1, 0x23], 0x200);
    run(&mut cut, 1);
    assert_eq!(cut.get_address_register().into_u32(), 0x123);
}

#[test]
fn jump_to() {
    // jump over, set v0, then jump-plus-offset using v0 = 0x12
    let mut cut = fresh();
    cut.load_memory(vec![0x12, 0x04, 0x00, 0x00, 0x60, 0x12, 0xB1, 0x23], 0x200);
    run(&mut cut, 1);
    assert_eq!(cut.get_pc().into_u32(), 0x204);
    run(&mut cut, 2);
    assert_eq!(cut.get_pc().into_u32(), 0x135);
}

#[test]
fn save_load_registers() {
    // store v0 into memory through the address register, then load it back
    let mut cut = fresh();
    cut.load_memory(
        vec![0x60, 0x10, 0xA0, 0x00, 0xF0, 0x55, 0x60, 0x01, 0xF0, 0x65],
        0x200,
    );
    run(&mut cut, 3);
    assert_eq!(cut.get_memory_at(0).into_u32(), 0x10);
    run(&mut cut, 2);
    assert_eq!(cut.get_register(0).into_u32(), 0x10);
}

#[test]
fn random_numbers() {
    let mut cut = fresh();
    cut.set_random_pool(vec![0b0011_0000]);
    cut.load_memory(vec![0xC0, 0b0001_0010], 0x200);
    run(&mut cut, 1);
    assert_eq!(cut.get_register(0).into_u32(), 0b0001_0000);
}

#[test]
fn self_loop_halts_and_stays_halted() {
    // a jump to its own address is the canonical program end
    let mut cut = fresh();
    cut.load_memory(vec![0x12, 0x00, 0x60, 0x55], 0x200);
    run(&mut cut, 1);
    assert!(cut.is_finished());
    let pc = cut.get_pc().into_u32();
    let v0 = cut.get_register(0).into_u32();
    run(&mut cut, 3);
    assert!(cut.is_finished());
    assert_eq!(cut.get_pc().into_u32(), pc);
    assert_eq!(cut.get_register(0).into_u32(), v0);
    assert_eq!(cut.stack_len(), 0);
}

#[test]
fn draw_twice_restores_pixels_and_sets_collision() {
    // drawing the same sprite twice at the same spot toggles every pixel
    // back and reports the collision on the second draw
    let mut cut = fresh();
    cut.load_memory(
        vec![
            0x60, 0x02, // v0 = 2
            0x61, 0x03, // v1 = 3
            0xA2, 0x0E, // I = 0x20E
            0xD0, 0x12, // draw 2 rows at (v0, v1)
            0xD0, 0x12, // draw the same sprite again
            0x12, 0x0A, // halt
            0x00, 0x00, 0xF0, 0x90,
        ],
        0x200,
    );
    run(&mut cut, 4);
    assert_eq!(cut.get_register(0xF).into_u32(), 0);
    assert!(cut.get_output().get_screen().get(2, 3));
    assert!(cut.get_output().get_screen().get(5, 3));
    assert!(cut.get_output().get_screen().get(2, 4));
    assert!(!cut.get_output().get_screen().get(3, 4));
    run(&mut cut, 1);
    assert_eq!(cut.get_register(0xF).into_u32(), 1);
    assert!(!cut.get_output().get_screen().get(2, 3));
    assert!(!cut.get_output().get_screen().get(5, 3));
    assert!(!cut.get_output().get_screen().get(2, 4));
    assert!(!cut.get_output().get_screen().get(3, 4));
}

#[test]
fn key_wait_blocks_until_hex_key() {
    let mut cut = fresh();
    cut.load_memory(vec![0xF5, 0x0A, 0x60, 0x01], 0x200);
    run(&mut cut, 1);
    assert_eq!(cut.get_awaiting_key(), Some(5));
    let none: Vec<u8> = Vec::new();
    assert!(cut.interpret_next(&none).is_ok());
    assert_eq!(cut.get_awaiting_key(), Some(5));
    assert_eq!(cut.get_pc().into_u32(), 0x202);
    let keys: Vec<u8> = vec![0x0B];
    assert!(cut.interpret_next(&keys).is_ok());
    assert_eq!(cut.get_awaiting_key(), None);
    assert_eq!(cut.get_register(5).into_u32(), 0x0B);
}

#[test]
fn skip_on_key_state() {
    // EX9E skips when the key is held, EXA1 when it is not
    let mut cut = fresh();
    cut.load_memory(vec![0x60, 0x07, 0xE0, 0x9E, 0x00, 0x00, 0xE0, 0xA1], 0x200);
    let keys: Vec<u8> = vec![0x07];
    assert!(cut.interpret_next(&keys).is_ok());
    assert!(cut.interpret_next(&keys).is_ok());
    assert_eq!(cut.get_pc().into_u32(), 0x206);
    assert!(cut.interpret_next(&keys).is_ok());
    assert_eq!(cut.get_pc().into_u32(), 0x208);
}

#[test]
fn bcd_decomposition() {
    let mut cut = fresh();
    cut.load_memory(vec![0x60, 0xFE, 0xA3, 0x00, 0xF0, 0x33], 0x200);
    run(&mut cut, 3);
    assert_eq!(cut.get_memory_at(0x300).into_u32(), 2);
    assert_eq!(cut.get_memory_at(0x301).into_u32(), 5);
    assert_eq!(cut.get_memory_at(0x302).into_u32(), 4);
}

#[test]
fn timers_count_down_and_silence_the_buzzer() {
    let mut cut = fresh();
    cut.load_memory(vec![0x60, 0x02, 0xF0, 0x15, 0x60, 0x01, 0xF0, 0x18], 0x200);
    run(&mut cut, 4);
    assert_eq!(cut.get_delay_timer().into_u32(), 2);
    assert_eq!(cut.get_sound_timer().into_u32(), 1);
    cut.get_output_mut().take_events();
    cut.next_frame();
    assert_eq!(cut.get_delay_timer().into_u32(), 1);
    assert_eq!(cut.get_sound_timer().into_u32(), 0);
    let events = cut.get_output_mut().take_events();
    assert!(events.contains(&IncomingEvent::Audio(AudioEvent::Buzz(false))));
    cut.next_frame();
    assert_eq!(cut.get_delay_timer().into_u32(), 0);
}

#[test]
fn unknown_opcode_is_fatal_and_changes_nothing() {
    let mut cut = fresh();
    cut.load_memory(vec![0x00, 0x01], 0x200);
    let keys: Vec<u8> = Vec::new();
    assert_eq!(cut.interpret_next(&keys), Err(Chip8Error::UnknownOpcode));
    assert_eq!(cut.get_pc().into_u32(), 0x200);
}

#[test]
fn return_on_empty_stack_is_fatal() {
    let mut cut = fresh();
    cut.load_memory(vec![0x00, 0xEE], 0x200);
    let keys: Vec<u8> = Vec::new();
    assert_eq!(cut.interpret_next(&keys), Err(Chip8Error::StackUnderflow));
}

#[test]
fn transfer_past_end_of_memory_is_fatal() {
    let mut cut = fresh();
    cut.load_memory(vec![0xAF, 0xFF, 0xF1, 0x55], 0x200);
    let keys: Vec<u8> = Vec::new();
    assert!(cut.interpret_next(&keys).is_ok());
    assert_eq!(cut.interpret_next(&keys), Err(Chip8Error::MemoryOutOfRange));
    assert_eq!(cut.get_address_register().into_u32(), 0xFFF);
}

#[test]
fn short_snapshot_is_rejected() {
    let mut cut = fresh();
    assert_eq!(cut.load(vec![1, 2, 3]), Err(Chip8Error::BadSnapshot));
    assert_eq!(cut.get_pc().into_u32(), 0x200);
}

#[test]
fn snapshot_round_trip_replays_identically() {
    // decode(encode(S)) rebuilds S; both copies then execute the same trace
    let mut a = fresh();
    a.set_random_pool((0..=255).collect());
    a.load_memory(
        vec![
            0x60, 0x21, // v0 = 0x21
            0x61, 0x17, // v1 = 0x17
            0xA2, 0x00, // I = 0x200: the program's own bytes are the sprite
            0x22, 0x10, // call 0x210
            0x00, 0x00, 0x00, 0x00, 0x00, 0x00, 0x00, 0x00,
            0x63, 0x05, // v3 = 5 (inside the subroutine)
            0xD0, 0x11, // draw one row at (v0, v1)
            0x70, 0x01, // v0 += 1
            0x12, 0x12, // loop back onto the draw
        ],
        0x200,
    );
    // leave the engine mid-subroutine with pixels lit and the stack in use
    let _ = a.get_output_mut().take_events();
    for _ in 0..9 {
        let keys: Vec<u8> = Vec::new();
        assert!(a.interpret_next(&keys).is_ok());
    }
    let blob = a.save();
    let mut b = fresh();
    assert!(b.load(blob).is_ok());
    assert_eq!(b.get_pc().into_u32(), a.get_pc().into_u32());
    assert_eq!(b.stack_len(), a.stack_len());
    assert_eq!(
        b.get_address_register().into_u32(),
        a.get_address_register().into_u32()
    );
    for i in 0..16 {
        assert_eq!(b.get_register(i).into_u32(), a.get_register(i).into_u32());
    }
    for addr in [0usize, 0x200, 0x212, 0x216, 4095] {
        assert_eq!(b.get_memory_at(addr).into_u32(), a.get_memory_at(addr).into_u32());
    }
    for x in 0..64 {
        for y in 0..64 {
            assert_eq!(
                b.get_output().get_screen().get(x, y),
                a.get_output().get_screen().get(x, y)
            );
        }
    }
    // both copies now execute the same trace
    for _ in 0..50 {
        let keys: Vec<u8> = Vec::new();
        assert_eq!(a.interpret_next(&keys).is_ok(), b.interpret_next(&keys).is_ok());
        assert_eq!(a.get_pc().into_u32(), b.get_pc().into_u32());
        for i in 0..16 {
            assert_eq!(a.get_register(i).into_u32(), b.get_register(i).into_u32());
        }
    }
}

#[test]
fn scrolls_and_scale_opcodes() {
    let mut cut = fresh();
    cut.load_memory(
        vec![0x00, 0xFF, 0x00, 0xFE, 0x00, 0xC3, 0x00, 0xFB, 0x00, 0xFC], 0x200,
    );
    run(&mut cut, 1);
    assert_eq!(cut.get_output().get_screen().get_scale(), 1);
    run(&mut cut, 1);
    assert_eq!(cut.get_output().get_screen().get_scale(), 2);
    run(&mut cut, 1);
    assert_eq!(cut.get_output().get_screen().get_scroll_down(), 3);
    run(&mut cut, 1);
    assert_eq!(cut.get_output().get_screen().get_scroll_side(), 4);
    run(&mut cut, 1);
    assert_eq!(cut.get_output().get_screen().get_scroll_side(), 0);
}
