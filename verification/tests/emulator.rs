use chip8::emulator::{Emulator, End};
use chip8::events::{IncomingEvent, InputEvent, InterpreterEvent, Key};

#[test]
fn fonts_are_loaded_at_the_bottom_of_memory() {
    let cut = Emulator::new_chip8(12);
    let engine = cut.get_interpreter();
    // glyph 0 starts at address 0, glyph 1 at 5
    assert_eq!(engine.get_memory_at(0).into_u32(), 0xF0);
    assert_eq!(engine.get_memory_at(4).into_u32(), 0xF0);
    assert_eq!(engine.get_memory_at(5).into_u32(), 0x20);
    // the double-height glyph 0 occupies 80..90, blank rows first
    assert_eq!(engine.get_memory_at(80).into_u32(), 0x00);
    assert_eq!(engine.get_memory_at(85).into_u32(), 0xF0);
    // program space is clear
    assert_eq!(engine.get_memory_at(0x200).into_u32(), 0);
    assert_eq!(engine.get_pc().into_u32(), 0x200);
}

#[test]
fn glyph_lookup_points_into_the_font() {
    let mut cut = Emulator::new_chip8(12);
    // v0 = 2, then point the address register at glyph 2 (ordinary font)
    cut.load_memory(vec![0x60, 0x02, 0xF0, 0x29]);
    assert!(cut.tick().is_ok());
    assert!(cut.tick().is_ok());
    let engine = cut.get_interpreter();
    assert_eq!(engine.get_address_register().into_u32(), 10);
    assert_eq!(engine.get_memory_at(10).into_u32(), 0xF0);
}

#[test]
fn run_loop_verdicts() {
    let mut cut = Emulator::new_chip8(12);
    assert_eq!(cut.handle_event(IncomingEvent::Restart), Some(End::Restart));
    assert_eq!(cut.handle_event(IncomingEvent::NewGame), Some(End::NewGame));
    assert_eq!(
        cut.handle_event(IncomingEvent::RequestTermination),
        Some(End::Quit)
    );
    assert_eq!(cut.handle_event(IncomingEvent::Pause(true)), None);
    assert!(cut.is_paused());
    assert_eq!(cut.handle_event(IncomingEvent::Pause(false)), None);
    assert!(!cut.is_paused());
    assert_eq!(cut.handle_event(IncomingEvent::SetSpeed(-2)), None);
    assert_eq!(cut.get_speed(), -2);
}

#[test]
fn held_keys_reach_the_key_wait() {
    let mut cut = Emulator::new_chip8(12);
    cut.load_memory(vec![0xF4, 0x0A]);
    assert!(cut.tick().is_ok());
    assert_eq!(cut.get_interpreter().get_awaiting_key(), Some(4));
    // a key outside the keypad layout changes nothing
    cut.handle_event(IncomingEvent::Input(InputEvent::KeyDown(Key::F1)));
    assert!(cut.tick().is_ok());
    assert_eq!(cut.get_interpreter().get_awaiting_key(), Some(4));
    // the S key is hex digit 8 under the keypad layout
    cut.handle_event(IncomingEvent::Input(InputEvent::KeyDown(Key::S)));
    assert!(cut.tick().is_ok());
    assert_eq!(cut.get_interpreter().get_awaiting_key(), None);
    assert_eq!(cut.get_interpreter().get_register(4).into_u32(), 8);
}

#[test]
fn key_release_and_clear_are_observed() {
    let mut cut = Emulator::new_chip8(12);
    // skip-if-held: v0 = 7; the A key is hex digit 7
    cut.load_memory(vec![0x60, 0x07, 0xE0, 0x9E, 0x12, 0x04, 0xE0, 0x9E]);
    cut.handle_event(IncomingEvent::Input(InputEvent::KeyDown(Key::A)));
    assert!(cut.tick().is_ok());
    assert!(cut.tick().is_ok());
    assert_eq!(cut.get_interpreter().get_pc().into_u32(), 0x206);
    cut.handle_event(IncomingEvent::Input(InputEvent::KeyUp(Key::A)));
    assert!(cut.tick().is_ok());
    assert_eq!(cut.get_interpreter().get_pc().into_u32(), 0x208);
}

#[test]
fn frame_timers_tick_once_per_frame_budget() {
    let mut cut = Emulator::new_chip8(2);
    // delay = 9, then idle
    cut.load_memory(vec![0x60, 0x09, 0xF0, 0x15, 0x12, 0x04]);
    assert!(cut.tick().is_ok()); // counter 0: frame tick before delay is set
    assert!(cut.tick().is_ok());
    assert!(cut.tick().is_ok()); // counter 2: one frame, delay 9 -> 8
    assert!(cut.tick().is_ok());
    assert_eq!(cut.get_interpreter().get_delay_timer().into_u32(), 8);
    assert!(cut.tick().is_ok()); // counter 4: next frame, 8 -> 7
    assert_eq!(cut.get_interpreter().get_delay_timer().into_u32(), 7);
}

#[test]
fn cheat_mode_pixel_edit_bypasses_collision() {
    let mut cut = Emulator::new_chip8(12);
    // the screen starts at scale 2, so logical pixel (6, 2) is edited
    cut.handle_event(IncomingEvent::Interpreter(InterpreterEvent::SetPixel(
        12, 4, true,
    )));
    assert!(cut.get_interpreter().get_output().get_screen().get(6, 2));
    assert_eq!(
        cut.get_interpreter().get_register(0xF).into_u32(),
        0,
        "a direct edit must not touch the flags register"
    );
    cut.handle_event(IncomingEvent::Interpreter(InterpreterEvent::SetPixel(
        12, 4, false,
    )));
    assert!(!cut.get_interpreter().get_output().get_screen().get(6, 2));
}

#[test]
fn engine_fault_surfaces_through_tick() {
    let mut cut = Emulator::new_chip8(12);
    cut.load_memory(vec![0x00, 0x01]);
    assert!(cut.tick().is_err());
}
