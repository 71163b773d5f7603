//! The emulation shell around the engine: it owns the interpreter, the set
//! of held keys and the pause and speed state, decides what every router
//! event means for the run loop, and paces frames by counting opcodes. The
//! host drives it: it sleeps, reads files and forwards events, but makes no
//! decisions of its own.

use vstd::prelude::*;
use crate::interpreter::{Chip8Interpreter, Chip8Error, EngineView, engine_wf, spec_step, spec_next_frame};
use crate::output::{Output, out_set};
use crate::events::{IncomingEvent, InputEvent, InterpreterEvent, Key, key_hex};

verus! {

/// Why the run loop ended.
#[derive(Debug, Eq, PartialEq, Copy, Clone, Structural)]
pub enum End {
    /// The user asked to quit.
    Quit,
    /// Restart the same program from the beginning.
    Restart,
    /// Load a different program.
    NewGame,
}

/// The hex-keypad font: five bytes per glyph for the sixteen digits.
pub open spec fn font_data() -> Seq<u8> {
    seq![
        0xF0u8, 0x90, 0x90, 0x90, 0xF0, 0x20, 0x60, 0x20, 0x20, 0x70,
        0xF0, 0x10, 0xF0, 0x80, 0xF0, 0xF0, 0x10, 0xF0, 0x10, 0xF0,
        0x90, 0x90, 0xF0, 0x10, 0x10, 0xF0, 0x80, 0xF0, 0x10, 0xF0,
        0xF0, 0x80, 0xF0, 0x90, 0xF0, 0xF0, 0x10, 0x20, 0x40, 0x40,
        0xF0, 0x90, 0xF0, 0x90, 0xF0, 0xF0, 0x90, 0xF0, 0x10, 0xF0,
        0xF0, 0x90, 0xF0, 0x90, 0x90, 0xE0, 0x90, 0xE0, 0x90, 0xE0,
        0xF0, 0x80, 0x80, 0x80, 0xF0, 0xE0, 0x90, 0x90, 0x90, 0xE0,
        0xF0, 0x80, 0xF0, 0x80, 0xF0, 0xF0, 0x80, 0xF0, 0x80, 0x80,
    ]
}

/// The double-height font used by the extended glyph opcode: ten bytes per
/// digit, the lower five rows holding the ordinary glyph.
pub open spec fn big_font_data() -> Seq<u8> {
    seq![
        0x00u8, 0x00, 0x00, 0x00, 0x00, 0xF0, 0x90, 0x90, 0x90, 0xF0,
        0x00, 0x00, 0x00, 0x00, 0x00, 0x20, 0x60, 0x20, 0x20, 0x70,
        0x00, 0x00, 0x00, 0x00, 0x00, 0xF0, 0x10, 0xF0, 0x80, 0xF0,
        0x00, 0x00, 0x00, 0x00, 0x00, 0xF0, 0x10, 0xF0, 0x10, 0xF0,
        0x00, 0x00, 0x00, 0x00, 0x00, 0x90, 0x90, 0xF0, 0x10, 0x10,
        0x00, 0x00, 0x00, 0x00, 0x00, 0xF0, 0x80, 0xF0, 0x10, 0xF0,
        0x00, 0x00, 0x00, 0x00, 0x00, 0xF0, 0x80, 0xF0, 0x90, 0xF0,
        0x00, 0x00, 0x00, 0x00, 0x00, 0xF0, 0x10, 0x20, 0x40, 0x40,
        0x00, 0x00, 0x00, 0x00, 0x00, 0xF0, 0x90, 0xF0, 0x90, 0xF0,
        0x00, 0x00, 0x00, 0x00, 0x00, 0xF0, 0x90, 0xF0, 0x10, 0xF0,
        0x00, 0x00, 0x00, 0x00, 0x00, 0xF0, 0x90, 0xF0, 0x90, 0x90,
        0x00, 0x00, 0x00, 0x00, 0x00, 0xE0, 0x90, 0xE0, 0x90, 0xE0,
        0x00, 0x00, 0x00, 0x00, 0x00, 0xF0, 0x80, 0x80, 0x80, 0xF0,
        0x00, 0x00, 0x00, 0x00, 0x00, 0xE0, 0x90, 0x90, 0x90, 0xE0,
        0x00, 0x00, 0x00, 0x00, 0x00, 0xF0, 0x80, 0xF0, 0x80, 0xF0,
        0x00, 0x00, 0x00, 0x00, 0x00, 0xF0, 0x80, 0xF0, 0x80, 0x80,
    ]
}

/// Removes every occurrence of `h` from the key list.
pub open spec fn without_key(s: Seq<u8>, h: u8) -> Seq<u8>
    decreases s.len(),
{
    if s.len() == 0 {
        Seq::empty()
    } else {
        let rest = without_key(s.drop_first(), h);
        if s[0] == h {
            rest
        } else {
            seq![s[0]] + rest
        }
    }
}

/// The abstract emulator: the engine, the held hex keys, and the pacing and
/// pause state.
#[verifier::ext_equal]
pub struct EmulatorView {
    /// The engine state.
    pub engine: EngineView,
    /// The hex digits currently held, without duplicates.
    pub pressed: Seq<u8>,
    /// Whether the cycle loop is paused.
    pub pause: bool,
    /// The speed exponent the host turns into a cycle delay.
    pub speed: i8,
    /// How many opcodes make one frame.
    pub opcodes_per_frame: u32,
    /// Opcodes executed so far.
    pub opcode_counter: u32,
}

/// What one router event means for the run loop: an exit verdict, a pause or
/// speed change, a key transition, or a direct pixel edit.
pub open spec fn spec_handle(v: EmulatorView, e: IncomingEvent) -> (EmulatorView, Option<End>) {
    match e {
        IncomingEvent::Restart => (v, Some(End::Restart)),
        IncomingEvent::NewGame => (v, Some(End::NewGame)),
        IncomingEvent::RequestTermination => (v, Some(End::Quit)),
        IncomingEvent::Pause(p) => (EmulatorView { pause: p, ..v }, None),
        IncomingEvent::SetSpeed(sp) => (EmulatorView { speed: sp, ..v }, None),
        IncomingEvent::Input(InputEvent::KeyDown(k)) => (
            match key_hex(k) {
                Some(h) => if v.pressed.contains(h) {
                    v
                } else {
                    EmulatorView { pressed: v.pressed.push(h), ..v }
                },
                None => v,
            },
            None,
        ),
        IncomingEvent::Input(InputEvent::KeyUp(k)) => (
            match key_hex(k) {
                Some(h) => EmulatorView { pressed: without_key(v.pressed, h), ..v },
                None => v,
            },
            None,
        ),
        IncomingEvent::Input(InputEvent::ClearKeys) => (
            EmulatorView { pressed: Seq::empty(), ..v },
            None,
        ),
        IncomingEvent::Interpreter(InterpreterEvent::SetPixel(x, y, c)) => (
            EmulatorView {
                engine: EngineView {
                    out: out_set(
                        v.engine.out,
                        x as int / v.engine.out.screen.scale as int,
                        y as int / v.engine.out.screen.scale as int,
                        c,
                    ),
                    ..v.engine
                },
                ..v
            },
            None,
        ),
        IncomingEvent::Interpreter(InterpreterEvent::RedrawAll) => (
            EmulatorView {
                engine: EngineView {
                    out: crate::output::OutputView {
                        pending: v.engine.out.pending.push(
                            IncomingEvent::Screen(crate::events::ScreenEvent::RedrawAll),
                        ),
                        ..v.engine.out
                    },
                    ..v.engine
                },
                ..v
            },
            None,
        ),
        _ => (v, None),
    }
}

/// One paced cycle: the engine executes one step against the held keys, the
/// opcode counter advances, and every `opcodes_per_frame` opcodes the frame
/// timers tick. An engine fault is reported with nothing changed.
pub open spec fn spec_tick(v: EmulatorView) -> Result<EmulatorView, Chip8Error> {
    match spec_step(v.engine, v.pressed) {
        Err(e) => Err(e),
        Ok(s) => {
            let s2 = if v.opcode_counter % v.opcodes_per_frame == 0 {
                spec_next_frame(s)
            } else {
                s
            };
            Ok(
                EmulatorView {
                    engine: s2,
                    opcode_counter: (v.opcode_counter + 1) as u32,
                    ..v
                },
            )
        },
    }
}

/// The emulation shell: the engine plus run-loop state.
pub struct Emulator {
    interpreter: Chip8Interpreter,
    pressed_keys: Vec<u8>,
    pause: bool,
    speed: i8,
    opcodes_per_frame: u32,
    opcode_counter: u32,
}

impl View for Emulator {
    type V = EmulatorView;

    closed spec fn view(&self) -> EmulatorView {
        EmulatorView {
            engine: self.interpreter@,
            pressed: self.pressed_keys@,
            pause: self.pause,
            speed: self.speed,
            opcodes_per_frame: self.opcodes_per_frame,
            opcode_counter: self.opcode_counter,
        }
    }
}

impl Emulator {
    /// A fresh machine with both fonts in low memory, the program counter at
    /// `0x200`, an unpaused loop at speed exponent zero, and the given
    /// opcodes-per-frame budget.
    pub fn new_chip8(opcodes_per_frame: u32) -> (r: Self)
        requires
            opcodes_per_frame >= 1,
        ensures
            engine_wf(r@.engine),
            r@.engine.mem == Seq::new(4096, |i: int| if 0 <= i < 80 {
                font_data()[i] as u32
            } else if 80 <= i < 240 {
                big_font_data()[i - 80] as u32
            } else {
                0u32
            }),
            r@.engine.pc == 0x200,
            r@.engine.stack == Seq::<u32>::empty(),
            r@.engine.regs == Seq::new(16, |i: int| 0u32),
            r@.engine.addr == 0,
            r@.engine.delay == 0,
            r@.engine.sound == 0,
            r@.engine.awaiting == Option::<usize>::None,
            r@.engine.finished == false,
            r@.engine.out.screen.width == 128,
            r@.engine.out.screen.height == 64,
            r@.engine.out.screen.scale == 2,
            r@.engine.out.screen.grid == Seq::new(128 * 64, |i: int| false),
            r@.engine.out.pending == Seq::<IncomingEvent>::empty(),
            r@.pressed == Seq::<u8>::empty(),
            r@.pause == false,
            r@.speed == 0,
            r@.opcodes_per_frame == opcodes_per_frame,
            r@.opcode_counter == 0,
    {
        let output = Output::new(128, 64);
        let mut interpreter = Chip8Interpreter::new(output);
        let font = font_vec();
        let big = big_font_vec();
        interpreter.load_memory(font, 0);
        interpreter.load_memory(big, 80);
        let r = Emulator {
            interpreter,
            pressed_keys: Vec::new(),
            pause: false,
            speed: 0,
            opcodes_per_frame,
            opcode_counter: 0,
        };
        proof {
            assert(r@.engine.mem =~= Seq::new(4096, |i: int| if 0 <= i < 80 {
                font_data()[i] as u32
            } else if 80 <= i < 240 {
                big_font_data()[i - 80] as u32
            } else {
                0u32
            }));
        }
        r
    }

    /// Loads a program image at `0x200` after a reset: the halt flag clears,
    /// the screen blanks and the host is asked to repaint.
    pub fn load_memory(&mut self, opcodes: Vec<u8>)
        requires
            engine_wf(old(self)@.engine),
            opcodes@.len() + 0x200 <= 4096,
        ensures
            engine_wf(final(self)@.engine),
            final(self)@.engine.pc == 0x200,
            final(self)@.engine.finished == false,
            final(self)@.engine.mem == Seq::new(4096, |j: int| if 0x200 <= j < 0x200
                + opcodes@.len() {
                opcodes@[j - 0x200] as u32
            } else {
                old(self)@.engine.mem[j]
            }),
            final(self)@.engine.regs == old(self)@.engine.regs,
            final(self)@.engine.stack == old(self)@.engine.stack,
            final(self)@.engine.out.screen.grid == Seq::new(
                old(self)@.engine.out.screen.grid.len(),
                |i: int| false,
            ),
    {
        self.interpreter.reset();
        self.interpreter.load_memory(opcodes, 0x200);
        self.interpreter.get_output_mut().redraw_all();
    }

    /// Whether the cycle loop is paused.
    pub fn is_paused(&self) -> (r: bool)
        ensures
            r == self@.pause,
    {
        self.pause
    }

    /// The current speed exponent.
    pub fn get_speed(&self) -> (r: i8)
        ensures
            r == self@.speed,
    {
        self.speed
    }

    /// The engine, read-only.
    pub fn get_interpreter(&self) -> (r: &Chip8Interpreter)
        ensures
            r@ == self@.engine,
    {
        &self.interpreter
    }

    /// The engine, for snapshot restore and event draining.
    pub fn get_interpreter_mut(&mut self) -> (r: &mut Chip8Interpreter)
        ensures
            r@ == old(self)@.engine,
            final(self)@ == (EmulatorView { engine: final(r)@, ..old(self)@ }),
    {
        &mut self.interpreter
    }

    /// Applies one router event to the run-loop state, as [`spec_handle`]
    /// says: exit verdicts are returned, pause, speed and key changes are
    /// recorded, and cheat-mode pixel edits go straight to the screen.
    pub fn handle_event(&mut self, e: IncomingEvent) -> (r: Option<End>)
        ensures
            (final(self)@, r) == spec_handle(old(self)@, e),
    {
        match e {
            IncomingEvent::Restart => Some(End::Restart),
            IncomingEvent::NewGame => Some(End::NewGame),
            IncomingEvent::RequestTermination => Some(End::Quit),
            IncomingEvent::Pause(p) => {
                self.pause = p;
                None
            },
            IncomingEvent::SetSpeed(sp) => {
                self.speed = sp;
                None
            },
            IncomingEvent::Input(InputEvent::KeyDown(k)) => {
                match hex_of_key(k) {
                    Some(h) => {
                        if !vec_contains(&self.pressed_keys, h) {
                            self.pressed_keys.push(h);
                        }
                    },
                    None => {},
                }
                None
            },
            IncomingEvent::Input(InputEvent::KeyUp(k)) => {
                match hex_of_key(k) {
                    Some(h) => {
                        let mut kept: Vec<u8> = Vec::new();
                        let ghost orig = self.pressed_keys@;
                        let mut i: usize = 0;
                        proof {
                            assert(orig.skip(0) =~= orig);
                        }
                        while i < self.pressed_keys.len()
                            invariant
                                i <= self.pressed_keys@.len(),
                                self.pressed_keys@ == orig,
                                kept@ + without_key(orig.skip(i as int), h) == without_key(
                                    orig,
                                    h,
                                ),
                            decreases self.pressed_keys@.len() - i,
                        {
                            let kv = self.pressed_keys[i];
                            if kv != h {
                                kept.push(kv);
                            }
                            proof {
                                assert(orig.skip(i as int).drop_first() =~= orig.skip(
                                    i as int + 1,
                                ));
                                if kv != h {
                                    assert(kept@ =~= (kept@.drop_last() + seq![kv]));
                                    assert(kept@ + without_key(orig.skip(i as int + 1), h)
                                        =~= kept@.drop_last() + (seq![kv] + without_key(
                                        orig.skip(i as int + 1),
                                        h,
                                    )));
                                }
                            }
                            i = i + 1;
                        }
                        proof {
                            assert(orig.skip(orig.len() as int) =~= Seq::<u8>::empty());
                            assert(kept@ + Seq::<u8>::empty() =~= kept@);
                        }
                        self.pressed_keys = kept;
                    },
                    None => {},
                }
                None
            },
            IncomingEvent::Input(InputEvent::ClearKeys) => {
                self.pressed_keys = Vec::new();
                None
            },
            IncomingEvent::Interpreter(InterpreterEvent::SetPixel(x, y, c)) => {
                let sref = self.interpreter.get_output().get_screen();
                proof {
                    use_type_invariant(sref);
                }
                let scale = sref.get_scale();
                let out = self.interpreter.get_output_mut();
                out.set(x / scale, y / scale, c);
                None
            },
            IncomingEvent::Interpreter(InterpreterEvent::RedrawAll) => {
                let out = self.interpreter.get_output_mut();
                out.redraw_all();
                None
            },
            _ => None,
        }
    }

    /// Runs one paced cycle against the held keys: one engine step, then a
    /// frame tick every `opcodes_per_frame` opcodes.
    pub fn tick(&mut self) -> (r: Result<(), Chip8Error>)
        requires
            engine_wf(old(self)@.engine),
            old(self)@.opcodes_per_frame >= 1,
            old(self)@.opcode_counter < u32::MAX,
        ensures
            spec_tick(old(self)@) matches Ok(v2) ==> r is Ok && final(self)@ == v2,
            spec_tick(old(self)@) matches Err(e) ==> r == Err::<(), Chip8Error>(e)
                && final(self)@ == old(self)@,
            engine_wf(final(self)@.engine),
    {
        let res = self.interpreter.interpret_next(&self.pressed_keys);
        match res {
            Err(e) => {
                proof {
                    assert(final(self)@ =~~= old(self)@);
                }
                Err(e)
            },
            Ok(()) => {
                if self.opcode_counter % self.opcodes_per_frame == 0 {
                    self.interpreter.next_frame();
                }
                self.opcode_counter = self.opcode_counter + 1;
                proof {
                    assert(final(self)@ =~~= spec_tick(old(self)@)->Ok_0);
                }
                Ok(())
            },
        }
    }
}

/// The hex digit a key maps to, as executable code.
fn hex_of_key(k: Key) -> (r: Option<u8>)
    ensures
        r == key_hex(k),
{
    crate::events::ScancodeToHex::try_into_hex(&k)
}

/// Whether the byte list holds `h`.
fn vec_contains(v: &Vec<u8>, h: u8) -> (r: bool)
    ensures
        r == v@.contains(h),
{
    let mut i: usize = 0;
    while i < v.len()
        invariant
            i <= v@.len(),
            forall|j: int| 0 <= j < i ==> v@[j] != h,
        decreases v@.len() - i,
    {
        if v[i] == h {
            proof {
                assert(v@[i as int] == h);
            }
            return true;
        }
        i = i + 1;
    }
    proof {
        assert(!v@.contains(h));
    }
    false
}

/// The keypad font as bytes.
fn font_vec() -> (r: Vec<u8>)
    ensures
        r@ == font_data(),
{
    let mut v: Vec<u8> = Vec::new();
    v.push(0xF0);
    v.push(0x90);
    v.push(0x90);
    v.push(0x90);
    v.push(0xF0);
    v.push(0x20);
    v.push(0x60);
    v.push(0x20);
    v.push(0x20);
    v.push(0x70);
    v.push(0xF0);
    v.push(0x10);
    v.push(0xF0);
    v.push(0x80);
    v.push(0xF0);
    v.push(0xF0);
    v.push(0x10);
    v.push(0xF0);
    v.push(0x10);
    v.push(0xF0);
    v.push(0x90);
    v.push(0x90);
    v.push(0xF0);
    v.push(0x10);
    v.push(0x10);
    v.push(0xF0);
    v.push(0x80);
    v.push(0xF0);
    v.push(0x10);
    v.push(0xF0);
    v.push(0xF0);
    v.push(0x80);
    v.push(0xF0);
    v.push(0x90);
    v.push(0xF0);
    v.push(0xF0);
    v.push(0x10);
    v.push(0x20);
    v.push(0x40);
    v.push(0x40);
    v.push(0xF0);
    v.push(0x90);
    v.push(0xF0);
    v.push(0x90);
    v.push(0xF0);
    v.push(0xF0);
    v.push(0x90);
    v.push(0xF0);
    v.push(0x10);
    v.push(0xF0);
    v.push(0xF0);
    v.push(0x90);
    v.push(0xF0);
    v.push(0x90);
    v.push(0x90);
    v.push(0xE0);
    v.push(0x90);
    v.push(0xE0);
    v.push(0x90);
    v.push(0xE0);
    v.push(0xF0);
    v.push(0x80);
    v.push(0x80);
    v.push(0x80);
    v.push(0xF0);
    v.push(0xE0);
    v.push(0x90);
    v.push(0x90);
    v.push(0x90);
    v.push(0xE0);
    v.push(0xF0);
    v.push(0x80);
    v.push(0xF0);
    v.push(0x80);
    v.push(0xF0);
    v.push(0xF0);
    v.push(0x80);
    v.push(0xF0);
    v.push(0x80);
    v.push(0x80);
    proof {
        assert(v@ =~= font_data());
    }
    v
}

/// The double-height font as bytes: each digit's ten rows are its five blank
/// upper rows followed by the ordinary glyph.
fn big_font_vec() -> (r: Vec<u8>)
    ensures
        r@ == big_font_data(),
{
    let font = font_vec();
    let mut v: Vec<u8> = Vec::new();
    let mut d: usize = 0;
    while d < 16
        invariant
            d <= 16,
            font@ == font_data(),
            v@.len() == 10 * d,
            forall|i: int| 0 <= i < v@.len() ==> v@[i] == big_font_data()[i],
        decreases 16 - d,
    {
        let mut z: usize = 0;
        while z < 5
            invariant
                z <= 5,
                d < 16,
                font@ == font_data(),
                v@.len() == 10 * d + z,
                forall|i: int| 0 <= i < v@.len() ==> v@[i] == big_font_data()[i],
            decreases 5 - z,
        {
            v.push(0x00);
            z = z + 1;
        }
        let mut g: usize = 0;
        while g < 5
            invariant
                g <= 5,
                d < 16,
                font@ == font_data(),
                v@.len() == 10 * d + 5 + g,
                forall|i: int| 0 <= i < v@.len() ==> v@[i] == big_font_data()[i],
            decreases 5 - g,
        {
            v.push(font[5 * d + g]);
            g = g + 1;
        }
        d = d + 1;
    }
    proof {
        assert(v@ =~= big_font_data());
    }
    v
}

} // verus!
