//! The execution engine: fetch, decode and dispatch of the 16 opcode
//! families with exact overflow, borrow and shift semantics, the two frame
//! timers, the blocking key wait, and the byte-exact snapshot codec.

use vstd::prelude::*;
use vstd::arithmetic::power2::pow2;
use crate::fixed_bit_numbers::{FixedBitNumber, width_mod};
use crate::output::{
    Output,
    OutputView,
    out_clear,
    out_buzz,
    out_scroll_down,
    out_scroll_side,
    out_set_scale,
};
use crate::events::IncomingEvent;
use crate::screen::{ScreenView, sv_lit_pixels, sv_cleared, sv_apply_lit, sv_in_bounds};

verus! {

/// One engine byte: an 8-bit register value.
pub type Byte = FixedBitNumber<8>;

/// One engine address: a 16-bit register value.
pub type Address = FixedBitNumber<16>;

/// The unrecoverable faults: they mean the loaded program image or snapshot
/// is invalid, and the engine makes no attempt to continue past them.
#[derive(Debug, Eq, PartialEq, Copy, Clone, Structural)]
pub enum Chip8Error {
    /// The fetched instruction belongs to no opcode family.
    UnknownOpcode,
    /// A return opcode ran with an empty call stack.
    StackUnderflow,
    /// An instruction fetch or a memory transfer left the 4096-byte memory.
    MemoryOutOfRange,
    /// A snapshot blob is too short or carries an impossible field.
    BadSnapshot,
}

/// The abstract engine state: every register, the memory, the call stack,
/// the timers, the random pool, the key-wait and halt flags, and the output
/// (screen and queued events).
#[verifier::ext_equal]
pub struct EngineView {
    /// The 4096 memory bytes.
    pub mem: Seq<u32>,
    /// The 16 general-purpose registers; index 15 is the flags register.
    pub regs: Seq<u32>,
    /// The 16-bit address register.
    pub addr: u32,
    /// Return addresses, oldest first.
    pub stack: Seq<u32>,
    /// The program counter.
    pub pc: u32,
    /// The delay timer.
    pub delay: u32,
    /// The sound timer.
    pub sound: u32,
    /// The circular random pool, front first.
    pub rand: Seq<u32>,
    /// The register index a key wait will fill, if one is pending.
    pub awaiting: Option<usize>,
    /// Whether the engine has halted.
    pub finished: bool,
    /// The screen and the events queued for the host.
    pub out: OutputView,
}

/// The first entry of the key snapshot that is a hex digit, if any.
pub open spec fn first_hex(keys: Seq<u8>) -> Option<u8>
    decreases keys.len(),
{
    if keys.len() == 0 {
        None
    } else if keys[0] < 16 {
        Some(keys[0])
    } else {
        first_hex(keys.drop_first())
    }
}

/// Whether the key snapshot reports the hex digit `vx` as held; values
/// outside the keypad are never held.
pub open spec fn key_pressed(keys: Seq<u8>, vx: u32) -> bool {
    vx < 16 && keys.contains(vx as u8)
}

/// Advancing the timers by one frame: both timers count down to zero, and
/// the sound timer drives the buzzer, silencing it exactly when it reaches
/// zero.
pub open spec fn spec_next_frame(s: EngineView) -> EngineView {
    let s1 = if s.delay > 0 {
        EngineView { delay: (s.delay - 1) as u32, ..s }
    } else {
        s
    };
    if s.sound > 0 {
        let snd = (s.sound - 1) as u32;
        EngineView { sound: snd, out: out_buzz(s1.out, snd != 0), ..s1 }
    } else {
        s1
    }
}

/// The execution engine.
pub struct Chip8Interpreter {
    memory: Vec<Byte>,
    data_registers: Vec<Byte>,
    address_register: Address,
    stack: Vec<Address>,
    pc: Address,
    output: Output,
    delay_timer: Byte,
    sound_timer: Byte,
    random_numbers: Vec<Byte>,
    awaiting_key: Option<usize>,
    finished: bool,
}

impl View for Chip8Interpreter {
    type V = EngineView;

    closed spec fn view(&self) -> EngineView {
        EngineView {
            mem: Seq::new(self.memory@.len(), |i: int| self.memory@[i]@),
            regs: Seq::new(self.data_registers@.len(), |i: int| self.data_registers@[i]@),
            addr: self.address_register@,
            stack: Seq::new(self.stack@.len(), |i: int| self.stack@[i]@),
            pc: self.pc@,
            delay: self.delay_timer@,
            sound: self.sound_timer@,
            rand: Seq::new(self.random_numbers@.len(), |i: int| self.random_numbers@[i]@),
            awaiting: self.awaiting_key,
            finished: self.finished,
            out: self.output@,
        }
    }
}

/// The structural invariant of a live engine: memory and register file have
/// their architectural sizes, the random pool never runs empty, and a
/// pending key wait names a real register. Every constructor establishes it
/// and every method keeps it.
pub open spec fn engine_wf(s: EngineView) -> bool {
    &&& s.mem.len() == 4096
    &&& s.regs.len() == 16
    &&& s.rand.len() >= 1
    &&& match s.awaiting {
        Some(x) => x < 16,
        None => true,
    }
}

/// The opcode family: the top four bits of the instruction word.
pub open spec fn op_top(op: u32) -> u32 {
    op / 4096
}

/// The `X` register field: bits 8 to 11.
pub open spec fn op_x(op: u32) -> int {
    ((op / 256) % 16) as int
}

/// The `Y` register field: bits 4 to 7.
pub open spec fn op_y(op: u32) -> int {
    ((op / 16) % 16) as int
}

/// The 12-bit address field.
pub open spec fn op_nnn(op: u32) -> u32 {
    op % 4096
}

/// The low byte of the instruction word.
pub open spec fn op_kk(op: u32) -> u32 {
    op % 256
}

/// The low nibble of the instruction word.
pub open spec fn op_n(op: u32) -> u32 {
    op % 16
}

/// Draws the bits `pix..8` of the sprite byte `b` onto row `y`, leftmost bit
/// first, toggling the pixel at `(vx + pix) mod 256` for each set bit;
/// accumulates whether any toggle turned a lit pixel off.
pub open spec fn draw_byte_from(
    o: OutputView,
    coll: bool,
    b: u32,
    vx: u32,
    y: int,
    pix: nat,
) -> (OutputView, bool)
    decreases 8 - pix,
{
    if pix >= 8 {
        (o, coll)
    } else {
        if ((b as nat) / pow2((7 - pix) as nat)) % 2 == 1 {
            let sw = crate::output::out_swap(o, ((vx + pix) % 256) as int, y);
            draw_byte_from(sw.0, coll || sw.1, b, vx, y, (pix + 1) as nat)
        } else {
            draw_byte_from(o, coll, b, vx, y, (pix + 1) as nat)
        }
    }
}

/// Draws a list of sprite rows: each entry `(k, r)` draws the memory byte at
/// `(addr + k) mod 65536` onto row `(vy + r) mod 256`, starting at column
/// `vx`; accumulates the collision flag.
pub open spec fn draw_rows(
    o: OutputView,
    coll: bool,
    mem: Seq<u32>,
    addr: u32,
    vx: u32,
    vy: u32,
    rows: Seq<(u32, u32)>,
) -> (OutputView, bool)
    decreases rows.len(),
{
    if rows.len() == 0 {
        (o, coll)
    } else {
        let k = rows[0].0;
        let r = rows[0].1;
        let b = mem[((addr + k) % 65536) as int];
        let d = draw_byte_from(o, coll, b, vx, ((vy + r) % 256) as int, 0);
        draw_rows(d.0, d.1, mem, addr, vx, vy, rows.drop_first())
    }
}

/// The row list of an ordinary `n`-row sprite: byte `i` on row `i`.
pub open spec fn normal_rows(n: u32) -> Seq<(u32, u32)> {
    Seq::new(n as nat, |i: int| (i as u32, i as u32))
}

/// The row list of the unscaled 16-row sprite variant: each row `r` draws
/// the bytes at offsets `r` and `r + 1`, both onto row `r`.
pub open spec fn big_rows() -> Seq<(u32, u32)> {
    Seq::new(32, |i: int| ((i / 2 + i % 2) as u32, (i / 2) as u32))
}

/// The faults an instruction word raises before anything is executed: opcode
/// patterns outside the instruction set, a return on an empty stack, and
/// sprite draws or memory transfers whose address range leaves memory.
#[verifier::opaque]
pub open spec fn spec_validate(s: EngineView, op: u32) -> Option<Chip8Error> {
    let top = op_top(op);
    let nnn = op_nnn(op);
    let kk = op_kk(op);
    let n = op_n(op);
    let x = op_x(op);
    if top == 0 {
        if kk / 16 == 0xC {
            None
        } else if nnn == 0 || nnn == 0x0E0 || nnn == 0x0FD || nnn == 0x0FB || nnn == 0x0FC
            || nnn == 0x0FE || nnn == 0x0FF {
            None
        } else if nnn == 0x0EE {
            if s.stack.len() == 0 {
                Some(Chip8Error::StackUnderflow)
            } else {
                None
            }
        } else {
            Some(Chip8Error::UnknownOpcode)
        }
    } else if top == 0x8 {
        if n <= 7 || n == 0xE {
            None
        } else {
            Some(Chip8Error::UnknownOpcode)
        }
    } else if top == 0xD {
        if n == 0 && s.out.screen.scale == 1 {
            if s.addr + 16 < 4096 {
                None
            } else {
                Some(Chip8Error::MemoryOutOfRange)
            }
        } else if n == 0 {
            None
        } else if s.addr + n - 1 < 4096 {
            None
        } else {
            Some(Chip8Error::MemoryOutOfRange)
        }
    } else if top == 0xE {
        if kk == 0x9E || kk == 0xA1 {
            None
        } else {
            Some(Chip8Error::UnknownOpcode)
        }
    } else if top == 0xF {
        if kk == 0x07 || kk == 0x0A || kk == 0x15 || kk == 0x18 || kk == 0x1E || kk == 0x29
            || kk == 0x30 {
            None
        } else if kk == 0x33 {
            if s.addr + 2 < 4096 {
                None
            } else {
                Some(Chip8Error::MemoryOutOfRange)
            }
        } else if kk == 0x55 || kk == 0x65 {
            if s.addr + x < 4096 {
                None
            } else {
                Some(Chip8Error::MemoryOutOfRange)
            }
        } else {
            Some(Chip8Error::UnknownOpcode)
        }
    } else {
        None
    }
}

/// Whether the program counter is advanced before dispatch; the control-flow
/// families that set it themselves are left alone.
pub open spec fn pre_increments(op: u32) -> bool {
    op_top(op) != 0x0 && op_top(op) != 0x1 && op_top(op) != 0x2 && op_top(op) != 0xB
}

/// The arithmetic family (top nibble 8): the value written to register `X`
/// and the value written to the flags register, from the operands `vx` and
/// `vy`; a flag value of 2 marks the operations that leave the flags
/// register alone.
pub open spec fn alu_result(sub: u32, vx: u32, vy: u32) -> (u32, u32) {
    if sub == 0x0 {
        (vy, 2)
    } else if sub == 0x1 {
        (vx | vy, 2)
    } else if sub == 0x2 {
        (vx & vy, 2)
    } else if sub == 0x3 {
        (vx ^ vy, 2)
    } else if sub == 0x4 {
        (((vx + vy) % 256) as u32, if vx + vy >= 256 {
            1
        } else {
            0
        })
    } else if sub == 0x5 {
        (((vx + 256 - vy) % 256) as u32, if vy <= vx {
            1
        } else {
            0
        })
    } else if sub == 0x6 {
        (vx / 2, if vx % 2 == 1 {
            1
        } else {
            0
        })
    } else if sub == 0x7 {
        (((vy + 256 - vx) % 256) as u32, if vx <= vy {
            1
        } else {
            0
        })
    } else {
        (((vx * 2) % 256) as u32, if vx >= 128 {
            1
        } else {
            0
        })
    }
}

/// Executes one validated instruction on the state `s`, the program counter
/// already advanced where the family asks for it.
#[verifier::opaque]
pub open spec fn spec_exec(s: EngineView, op: u32, keys: Seq<u8>) -> EngineView {
    let top = op_top(op);
    let nnn = op_nnn(op);
    let kk = op_kk(op);
    let n = op_n(op);
    let x = op_x(op);
    let vx = s.regs[op_x(op)];
    let vy = s.regs[op_y(op)];
    let pc2 = ((s.pc + 2) % 65536) as u32;
    if top == 0x0 {
        if kk / 16 == 0xC {
            EngineView { out: out_scroll_down(s.out, n as isize), pc: pc2, ..s }
        } else if nnn == 0 {
            EngineView { pc: pc2, ..s }
        } else if nnn == 0x0E0 {
            EngineView { out: out_clear(s.out), pc: pc2, ..s }
        } else if nnn == 0x0EE {
            EngineView { pc: s.stack.last() as u32, stack: s.stack.drop_last(), ..s }
        } else if nnn == 0x0FD {
            EngineView { finished: true, ..s }
        } else if nnn == 0x0FB {
            EngineView { out: out_scroll_side(s.out, 4 as isize), pc: pc2, ..s }
        } else if nnn == 0x0FC {
            EngineView { out: out_scroll_side(s.out, (-4) as isize), pc: pc2, ..s }
        } else if nnn == 0x0FE {
            EngineView { out: out_set_scale(s.out, 2), pc: pc2, ..s }
        } else {
            EngineView { out: out_set_scale(s.out, 1), pc: pc2, ..s }
        }
    } else if top == 0x1 {
        if nnn == s.pc {
            EngineView { finished: true, ..s }
        } else {
            EngineView { pc: nnn, ..s }
        }
    } else if top == 0x2 {
        EngineView { stack: s.stack.push(pc2), pc: nnn, ..s }
    } else if top == 0x3 {
        if vx == kk {
            EngineView { pc: pc2, ..s }
        } else {
            s
        }
    } else if top == 0x4 {
        if vx != kk {
            EngineView { pc: pc2, ..s }
        } else {
            s
        }
    } else if top == 0x5 {
        if vx == vy {
            EngineView { pc: pc2, ..s }
        } else {
            s
        }
    } else if top == 0x6 {
        EngineView { regs: s.regs.update(x, kk), ..s }
    } else if top == 0x7 {
        EngineView { regs: s.regs.update(x, ((vx + kk) % 256) as u32), ..s }
    } else if top == 0x8 {
        let rf = alu_result(n, vx, vy);
        if rf.1 == 2 {
            EngineView { regs: s.regs.update(x, rf.0), ..s }
        } else {
            EngineView { regs: s.regs.update(x, rf.0).update(0xF, rf.1), ..s }
        }
    } else if top == 0x9 {
        if vx != vy {
            EngineView { pc: pc2, ..s }
        } else {
            s
        }
    } else if top == 0xA {
        EngineView { addr: nnn, ..s }
    } else if top == 0xB {
        EngineView { pc: ((nnn + s.regs[0]) % 4096) as u32, ..s }
    } else if top == 0xC {
        EngineView {
            regs: s.regs.update(x, s.rand[0] & kk),
            rand: s.rand.drop_first().push(s.rand[0]),
            ..s
        }
    } else if top == 0xD {
        let rows = if n == 0 && s.out.screen.scale == 1 {
            big_rows()
        } else {
            normal_rows(n)
        };
        let d = draw_rows(s.out, false, s.mem, s.addr, vx, vy, rows);
        EngineView {
            out: d.0,
            regs: s.regs.update(0xF, if d.1 {
                1
            } else {
                0
            }),
            ..s
        }
    } else if top == 0xE {
        if kk == 0x9E {
            if key_pressed(keys, vx) {
                EngineView { pc: pc2, ..s }
            } else {
                s
            }
        } else {
            if !key_pressed(keys, vx) {
                EngineView { pc: pc2, ..s }
            } else {
                s
            }
        }
    } else {
        if kk == 0x07 {
            EngineView { regs: s.regs.update(x, s.delay), ..s }
        } else if kk == 0x0A {
            EngineView { awaiting: Some(x as usize), ..s }
        } else if kk == 0x15 {
            EngineView { delay: vx, ..s }
        } else if kk == 0x18 {
            EngineView {
                sound: vx,
                out: if vx == 0 {
                    out_buzz(s.out, false)
                } else {
                    s.out
                },
                ..s
            }
        } else if kk == 0x1E {
            EngineView { addr: ((s.addr + vx) % 65536) as u32, ..s }
        } else if kk == 0x29 {
            EngineView { addr: ((vx * 5) % 65536) as u32, ..s }
        } else if kk == 0x30 {
            EngineView { addr: ((vx * 10 + 80) % 65536) as u32, ..s }
        } else if kk == 0x33 {
            EngineView {
                mem: s.mem.update(s.addr as int, vx / 100).update(
                    s.addr + 1,
                    (vx % 100) / 10,
                ).update(s.addr + 2, vx % 10),
                ..s
            }
        } else if kk == 0x55 {
            EngineView {
                mem: Seq::new(4096, |j: int| if s.addr <= j <= s.addr + x {
                    s.regs[j - s.addr]
                } else {
                    s.mem[j]
                }),
                ..s
            }
        } else {
            EngineView {
                regs: Seq::new(16, |j: int| if j <= x {
                    s.mem[s.addr + j]
                } else {
                    s.regs[j]
                }),
                ..s
            }
        }
    }
}

/// The instruction word at the program counter: two consecutive memory
/// bytes combined big-endian.
pub open spec fn spec_opcode(s: EngineView) -> u32 {
    (s.mem[s.pc as int] * 256 + s.mem[s.pc as int + 1]) as u32
}

/// One engine cycle: a halted engine does nothing; a pending key wait
/// consumes the first held hex key and fetches nothing; otherwise the
/// instruction at the program counter is fetched, validated, and executed
/// with the counter advanced for the non-control-flow families. A fault
/// leaves the state untouched.
pub open spec fn spec_step(s: EngineView, keys: Seq<u8>) -> Result<EngineView, Chip8Error> {
    if s.finished {
        Ok(s)
    } else if s.awaiting is Some {
        let x = s.awaiting->0;
        match first_hex(keys) {
            Some(d) => Ok(
                EngineView { regs: s.regs.update(x as int, d as u32), awaiting: None, ..s },
            ),
            None => Ok(s),
        }
    } else if s.pc + 1 >= 4096 {
        Err(Chip8Error::MemoryOutOfRange)
    } else {
        let op = (s.mem[s.pc as int] * 256 + s.mem[s.pc as int + 1]) as u32;
        match spec_validate(s, op) {
            Some(e) => Err(e),
            None => {
                let s1 = if pre_increments(op) {
                    EngineView { pc: ((s.pc + 2) % 65536) as u32, ..s }
                } else {
                    s
                };
                Ok(spec_exec(s1, op, keys))
            },
        }
    }
}

/// Validation never reads the program counter: advancing it beforehand
/// changes nothing about which fault an instruction word raises.
proof fn lemma_validate_pc_irrelevant(s: EngineView, pc: u32, op: u32)
    ensures
        spec_validate(EngineView { pc: pc, ..s }, op) == spec_validate(s, op),
{
    reveal(spec_validate);
}

/// A halted engine steps to itself.
proof fn lemma_step_finished(s: EngineView, keys: Seq<u8>)
    requires
        s.finished,
    ensures
        spec_step(s, keys) == Ok::<EngineView, Chip8Error>(s),
{
}

/// A waiting engine only polls the keys.
proof fn lemma_step_waiting(s: EngineView, keys: Seq<u8>)
    requires
        !s.finished,
        s.awaiting is Some,
    ensures
        spec_step(s, keys) == Ok::<EngineView, Chip8Error>(
            match first_hex(keys) {
                Some(d) => EngineView {
                    regs: s.regs.update(s.awaiting->0 as int, d as u32),
                    awaiting: None,
                    ..s
                },
                None => s,
            },
        ),
{
}

/// A fetch at the end of memory, or a validation fault, steps to an error.
proof fn lemma_step_fault(s: EngineView, keys: Seq<u8>, e: Chip8Error)
    requires
        !s.finished,
        s.awaiting is None,
        s.pc + 1 >= 4096 ==> e == Chip8Error::MemoryOutOfRange,
        s.pc + 1 < 4096 ==> spec_validate(s, spec_opcode(s)) == Some(e),
    ensures
        spec_step(s, keys) == Err::<EngineView, Chip8Error>(e),
{
}

/// A validated instruction steps to its execution, the program counter
/// advanced first for the families that expect it.
proof fn lemma_step_exec(s: EngineView, keys: Seq<u8>)
    requires
        !s.finished,
        s.awaiting is None,
        s.pc + 1 < 4096,
        spec_validate(s, spec_opcode(s)) is None,
    ensures
        spec_step(s, keys) == Ok::<EngineView, Chip8Error>(
            spec_exec(
                if pre_increments(spec_opcode(s)) {
                    EngineView { pc: ((s.pc + 2) % 65536) as u32, ..s }
                } else {
                    s
                },
                spec_opcode(s),
                keys,
            ),
        ),
{
}

/// The low bytes of a register sequence.
pub open spec fn bytes_of(xs: Seq<u32>) -> Seq<u8> {
    Seq::new(xs.len(), |i: int| xs[i] as u8)
}

/// Lit pixel coordinates flattened to alternating `x, y` bytes.
pub open spec fn pixel_bytes(ps: Seq<(usize, usize)>) -> Seq<u8> {
    Seq::new(2 * ps.len(), |i: int| if i % 2 == 0 {
        ps[i / 2].0 as u8
    } else {
        ps[i / 2].1 as u8
    })
}

/// 16-bit words flattened to big-endian byte pairs.
pub open spec fn pair_bytes(xs: Seq<u32>) -> Seq<u8> {
    Seq::new(2 * xs.len(), |i: int| if i % 2 == 0 {
        (xs[i / 2] / 256) as u8
    } else {
        (xs[i / 2] % 256) as u8
    })
}

/// The byte-exact snapshot of an engine state: random pool, memory, scale,
/// vertical and horizontal scroll, the length-prefixed list of lit pixels,
/// address register, the 16 registers, sound and delay timers, program
/// counter, the key-wait marker (`0` for none, `0xF0` plus the register
/// index otherwise), and the call stack bottom to top. The format is
/// positional, not self-describing.
pub open spec fn spec_save(s: EngineView) -> Seq<u8> {
    let pix = sv_lit_pixels(s.out.screen);
    let plen = 2 * pix.len();
    bytes_of(s.rand) + bytes_of(s.mem) + seq![
        s.out.screen.scale as u8,
        s.out.screen.scroll_down as u8,
        s.out.screen.scroll_side as u8,
        (plen / 256) as u8,
        (plen % 256) as u8,
    ] + pixel_bytes(pix) + seq![(s.addr / 256) as u8, (s.addr % 256) as u8] + bytes_of(s.regs)
        + seq![
        s.sound as u8,
        s.delay as u8,
        (s.pc / 256) as u8,
        (s.pc % 256) as u8,
        (match s.awaiting {
            Some(x) => (0xF0 + x) as u8,
            None => 0u8,
        }),
    ] + pair_bytes(s.stack)
}

/// The screen a snapshot starts from: stored scale and scroll offsets over
/// the host screen's dimensions, before the lit pixels are applied.
pub open spec fn snap_screen0(data: Seq<u8>, sc: ScreenView) -> ScreenView {
    ScreenView {
        scale: data[4352] as nat,
        scroll_down: data[4353] as nat,
        scroll_side: data[4354] as nat,
        ..sc
    }
}

/// The lit pixel pairs of a snapshot's pixel section of `plen` bytes; a
/// trailing odd byte is ignored.
pub open spec fn snap_pairs(data: Seq<u8>, plen: int) -> Seq<(usize, usize)> {
    Seq::new((plen / 2) as nat, |i: int| (data[4357 + 2 * i] as usize, data[4357 + 2 * i
        + 1] as usize))
}

/// Decoding a snapshot against the engine state `s` (which contributes the
/// screen dimensions and the undelivered events): `None` is the fatal
/// malformed-snapshot case, a blob too short for its own length fields or
/// with a zero scale byte. Decoding reverses [`spec_save`] segment by
/// segment and always clears the halt flag.
pub open spec fn spec_load(data: Seq<u8>, s: EngineView) -> Option<EngineView> {
    if data.len() < 4357 {
        None
    } else {
        let scale = data[4352];
        let plen = data[4355] * 256 + data[4356];
        let screen_end = 4357 + plen;
        if scale == 0 || data.len() < screen_end + 23 {
            None
        } else {
            let aw = data[screen_end + 22];
            Some(
                EngineView {
                    rand: Seq::new(256, |i: int| data[i] as u32),
                    mem: Seq::new(4096, |i: int| data[256 + i] as u32),
                    addr: (data[screen_end] * 256 + data[screen_end + 1]) as u32,
                    regs: Seq::new(16, |i: int| data[screen_end + 2 + i] as u32),
                    sound: data[screen_end + 18] as u32,
                    delay: data[screen_end + 19] as u32,
                    pc: (data[screen_end + 20] * 256 + data[screen_end + 21]) as u32,
                    awaiting: if aw == 0 {
                        None
                    } else {
                        Some((aw % 16) as usize)
                    },
                    finished: false,
                    stack: Seq::new(
                        (((data.len() - screen_end - 23) as int) / 2) as nat,
                        |i: int| (data[screen_end + 23 + 2 * i] * 256 + data[screen_end + 24 + 2
                            * i]) as u32,
                    ),
                    out: OutputView {
                        screen: sv_apply_lit(
                            sv_cleared(snap_screen0(data, s.out.screen)),
                            snap_pairs(data, plen),
                        ),
                        pending: s.out.pending,
                    },
                },
            )
        }
    }
}

impl Chip8Interpreter {
    /// A fresh engine around the given output: memory and registers zeroed,
    /// the program counter at `0x200`, and the random pool holding the 256
    /// byte values in order. A host that wants an unpredictable sequence
    /// replaces the pool through [`Self::set_random_pool`].
    pub fn new(output: Output) -> (r: Self)
        ensures
            r@.mem == Seq::new(4096, |i: int| 0u32),
            r@.regs == Seq::new(16, |i: int| 0u32),
            r@.addr == 0,
            r@.stack == Seq::<u32>::empty(),
            r@.pc == 0x200,
            r@.delay == 0,
            r@.sound == 0,
            r@.rand == Seq::new(256, |i: int| i as u32),
            r@.awaiting == Option::<usize>::None,
            r@.finished == false,
            r@.out == output@,
            engine_wf(r@),
    {
        let mut memory: Vec<Byte> = Vec::new();
        let mut n: usize = 0;
        while n < 4096
            invariant
                n <= 4096,
                memory@.len() == n,
                forall|i: int| 0 <= i < n ==> memory@[i]@ == 0,
            decreases 4096 - n,
        {
            memory.push(Byte::new());
            n = n + 1;
        }
        let mut data_registers: Vec<Byte> = Vec::new();
        let mut k: usize = 0;
        while k < 16
            invariant
                k <= 16,
                data_registers@.len() == k,
                forall|i: int| 0 <= i < k ==> data_registers@[i]@ == 0,
            decreases 16 - k,
        {
            data_registers.push(Byte::new());
            k = k + 1;
        }
        let mut random_numbers: Vec<Byte> = Vec::new();
        let mut b: usize = 0;
        while b < 256
            invariant
                b <= 256,
                random_numbers@.len() == b,
                forall|i: int| 0 <= i < b ==> random_numbers@[i]@ == i,
            decreases 256 - b,
        {
            proof {
                vstd::arithmetic::power2::lemma2_to64();
                assert(width_mod(8) == 256);
            }
            let e = Byte::from(b as u32);
            proof {
                assert(e@ == b);
            }
            random_numbers.push(e);
            b = b + 1;
        }
        let r = Self {
            memory,
            data_registers,
            address_register: Address::new(),
            stack: Vec::new(),
            pc: Address::from(0x200),
            output,
            delay_timer: Byte::new(),
            sound_timer: Byte::new(),
            random_numbers,
            awaiting_key: None,
            finished: false,
        };
        proof {
            assert(r@.mem =~= Seq::new(4096, |i: int| 0u32));
            assert(r@.regs =~= Seq::new(16, |i: int| 0u32));
            assert(r@.rand =~= Seq::new(256, |i: int| i as u32));
            assert(r@.stack =~= Seq::<u32>::empty());
            vstd::arithmetic::power2::lemma2_to64();
        }
        r
    }

    /// Replaces the random pool; it must keep at least one entry, since the
    /// draw-random opcode always consumes one.
    pub fn set_random_pool(&mut self, pool: Vec<u8>)
        requires
            pool@.len() >= 1,
        ensures
            final(self)@ == (EngineView {
                rand: Seq::new(pool@.len(), |i: int| pool@[i] as u32),
                ..old(self)@
            }),
    {
        let mut random_numbers: Vec<Byte> = Vec::new();
        let mut i: usize = 0;
        while i < pool.len()
            invariant
                i <= pool@.len(),
                random_numbers@.len() == i,
                forall|j: int| 0 <= j < i ==> random_numbers@[j]@ == pool@[j],
            decreases pool@.len() - i,
        {
            proof {
                vstd::arithmetic::power2::lemma2_to64();
                assert(width_mod(8) == 256);
            }
            let e = Byte::from_u8(pool[i]);
            proof {
                assert(e@ == pool@[i as int]);
            }
            random_numbers.push(e);
            i = i + 1;
        }
        self.random_numbers = random_numbers;
        proof {
            assert(final(self)@ =~~= (EngineView {
                rand: Seq::new(pool@.len(), |i: int| pool@[i] as u32),
                ..old(self)@
            }));
        }
    }

    /// Pops the front of the random pool and re-appends it at the back.
    fn get_next_random(&mut self) -> (r: Byte)
        requires
            old(self)@.rand.len() >= 1,
        ensures
            r@ == old(self)@.rand[0],
            final(self)@ == (EngineView {
                rand: old(self)@.rand.drop_first().push(old(self)@.rand[0]),
                ..old(self)@
            }),
    {
        let r = self.random_numbers[0];
        let mut rotated: Vec<Byte> = Vec::new();
        let mut i: usize = 1;
        while i < self.random_numbers.len()
            invariant
                1 <= i <= self.random_numbers@.len(),
                self.random_numbers@.len() >= 1,
                rotated@.len() == i - 1,
                forall|j: int| 0 <= j < i - 1 ==> rotated@[j] == self.random_numbers@[j + 1],
            decreases self.random_numbers@.len() - i,
        {
            rotated.push(self.random_numbers[i]);
            i = i + 1;
        }
        rotated.push(r);
        self.random_numbers = rotated;
        proof {
            assert(final(self)@.rand =~= old(self)@.rand.drop_first().push(old(self)@.rand[0]));
            assert(final(self)@ =~~= (EngineView {
                rand: old(self)@.rand.drop_first().push(old(self)@.rand[0]),
                ..old(self)@
            }));
        }
        r
    }

    /// Counts one frame: each nonzero timer drops by one, and the sound
    /// timer keeps the buzzer on until it reaches zero, at which point a
    /// silence event is queued. This is the only path that starts or stops
    /// sound.
    pub fn next_frame(&mut self)
        ensures
            final(self)@ == spec_next_frame(old(self)@),
    {
        if self.delay_timer.into_u32() > 0 {
            proof {
                use_type_invariant(self.delay_timer);
                vstd::arithmetic::power2::lemma2_to64();
                lemma_dec_one(self.delay_timer@);
            }
            self.delay_timer.decrease_by_u32(1);
        }
        if self.sound_timer.into_u32() > 0 {
            proof {
                use_type_invariant(self.sound_timer);
                vstd::arithmetic::power2::lemma2_to64();
                lemma_dec_one(self.sound_timer@);
            }
            self.sound_timer.decrease_by_u32(1);
            if self.sound_timer.into_u32() == 0 {
                self.output.stop_buzz();
            } else {
                self.output.buzz();
            }
        }
        proof {
            assert(final(self)@ =~~= spec_next_frame(old(self)@));
        }
    }

    /// Halts are cleared, the program counter returns to `0x200`, and the
    /// screen is blanked; memory and registers keep their contents.
    pub fn reset(&mut self)
        ensures
            final(self)@ == (EngineView {
                finished: false,
                pc: 0x200,
                out: out_clear(old(self)@.out),
                ..old(self)@
            }),
    {
        proof {
            vstd::arithmetic::power2::lemma2_to64();
        }
        self.finished = false;
        self.pc = Address::from(0x200);
        self.output.clear();
        proof {
            assert(final(self)@ =~~= (EngineView {
                finished: false,
                pc: 0x200,
                out: out_clear(old(self)@.out),
                ..old(self)@
            }));
        }
    }

    /// Copies `bytes` into memory at `starting_address`; the block must fit
    /// below the 4096-byte end of memory.
    pub fn load_memory(&mut self, bytes: Vec<u8>, starting_address: u16)
        requires
            engine_wf(old(self)@),
            starting_address + bytes@.len() <= 4096,
        ensures
            final(self)@ == (EngineView {
                mem: Seq::new(4096, |j: int| if starting_address <= j
                    < starting_address + bytes@.len() {
                    bytes@[j - starting_address] as u32
                } else {
                    old(self)@.mem[j]
                }),
                ..old(self)@
            }),
    {
        let mut i: usize = 0;
        let start = starting_address as usize;
        while i < bytes.len()
            invariant
                i <= bytes@.len(),
                start == starting_address,
                start + bytes@.len() <= 4096,
                self.memory@.len() == 4096,
                forall|j: int| 0 <= j < 4096 && !(start <= j < start + i)
                    ==> self@.mem[j] == old(self)@.mem[j],
                forall|j: int| start <= j < start + i ==> self@.mem[j] == bytes@[j - start],
                self@ == (EngineView { mem: self@.mem, ..old(self)@ }),
            decreases bytes@.len() - i,
        {
            proof {
                vstd::arithmetic::power2::lemma2_to64();
            }
            let b = Byte::from_u8(bytes[i]);
            let ghost prev = self.memory@;
            let ghost pre_view = self@;
            proof {
                assert(forall|j: int| 0 <= j < 4096 ==> pre_view.mem[j] == prev[j]@);
            }
            self.memory[i + start] = b;
            proof {
                assert(self.memory@ == prev.update((i + start) as int, b));
                assert(b@ == bytes@[i as int]);
                assert(self@.mem[(i + start) as int] == b@);
                assert(forall|j: int| 0 <= j < 4096 && j != i + start ==> self@.mem[j]
                    == prev[j]@);
                assert(forall|j: int| 0 <= j < 4096 && !(start <= j < start + i + 1)
                    ==> self@.mem[j] == old(self)@.mem[j]);
                assert forall|j: int| start <= j < start + i + 1 implies self@.mem[j] == bytes@[
                    j - start] by {
                    if j < start + i {
                        assert(pre_view.mem[j] == bytes@[j - start]);
                    }
                }
                assert(self@ =~= (EngineView { mem: self@.mem, ..old(self)@ }));
            }
            i = i + 1;
        }
        proof {
            assert(self@.mem =~= Seq::new(4096, |j: int| if starting_address <= j
                < starting_address + bytes@.len() {
                bytes@[j - starting_address] as u32
            } else {
                old(self)@.mem[j]
            }));
            assert(self@ =~~= (EngineView {
                mem: Seq::new(4096, |j: int| if starting_address <= j
                    < starting_address + bytes@.len() {
                    bytes@[j - starting_address] as u32
                } else {
                    old(self)@.mem[j]
                }),
                ..old(self)@
            }));
        }
    }

    /// The output, read-only.
    pub fn get_output(&self) -> (r: &Output)
        ensures
            r@ == self@.out,
    {
        &self.output
    }

    /// The output, for draining queued events and for snapshot restore.
    pub fn get_output_mut(&mut self) -> (r: &mut Output)
        ensures
            r@ == old(self)@.out,
            final(self)@ == (EngineView { out: final(r)@, ..old(self)@ }),
    {
        &mut self.output
    }

    /// The engine does nothing on shutdown; the host tears down devices.
    pub fn shutdown(&mut self)
        ensures
            final(self)@ == old(self)@,
    {
        proof {
            assert(final(self)@ =~~= old(self)@);
        }
    }

    /// The program counter.
    pub fn get_pc(&self) -> (r: Address)
        ensures
            r@ == self@.pc,
    {
        self.pc
    }

    /// The address register.
    pub fn get_address_register(&self) -> (r: Address)
        ensures
            r@ == self@.addr,
    {
        self.address_register
    }

    /// General-purpose register `i`.
    pub fn get_register(&self, i: usize) -> (r: Byte)
        requires
            engine_wf(self@),
            i < 16,
        ensures
            r@ == self@.regs[i as int],
    {
        self.data_registers[i]
    }

    /// The memory byte at `address`.
    pub fn get_memory_at(&self, address: usize) -> (r: Byte)
        requires
            engine_wf(self@),
            address < 4096,
        ensures
            r@ == self@.mem[address as int],
    {
        self.memory[address]
    }

    /// The call stack depth.
    pub fn stack_len(&self) -> (r: usize)
        ensures
            r == self@.stack.len(),
    {
        self.stack.len()
    }

    /// The delay timer value.
    pub fn get_delay_timer(&self) -> (r: Byte)
        ensures
            r@ == self@.delay,
    {
        self.delay_timer
    }

    /// The sound timer value.
    pub fn get_sound_timer(&self) -> (r: Byte)
        ensures
            r@ == self@.sound,
    {
        self.sound_timer
    }

    /// Whether the engine has halted.
    pub fn is_finished(&self) -> (r: bool)
        ensures
            r == self@.finished,
    {
        self.finished
    }

    /// The register index a pending key wait will fill, if any.
    pub fn get_awaiting_key(&self) -> (r: Option<usize>)
        ensures
            r == self@.awaiting,
    {
        self.awaiting_key
    }

    /// Encodes the whole engine state as the byte-exact snapshot of
    /// [`spec_save`]. The screen may not hold more than 32767 cells, so the
    /// two-byte pixel-list length cannot overflow.
    #[verifier::rlimit(100)]
    pub fn save(&self) -> (r: Vec<u8>)
        requires
            engine_wf(self@),
            self@.out.screen.grid.len() <= 32767,
        ensures
            r@ == spec_save(self@),
    {
        let mut out = to_bytes(&self.random_numbers);
        proof {
            assert(out@ =~= bytes_of(self@.rand));
        }
        let mut m = to_bytes(&self.memory);
        proof {
            assert(m@ =~= bytes_of(self@.mem));
        }
        out.append(&mut m);
        let scr = self.output.get_screen();
        proof {
            use_type_invariant(scr);
        }
        let pixels = scr.get_pixels();
        proof {
            crate::screen::lemma_lit_pixels_in_bounds(scr@, scr@.grid.len());
        }
        out.push(scr.get_scale() as u8);
        out.push(scr.get_scroll_down() as u8);
        out.push(scr.get_scroll_side() as u8);
        let plen = 2 * pixels.len();
        out.push((plen / 256) as u8);
        out.push((plen % 256) as u8);
        let ghost head = bytes_of(self@.rand) + bytes_of(self@.mem) + seq![
            self@.out.screen.scale as u8,
            self@.out.screen.scroll_down as u8,
            self@.out.screen.scroll_side as u8,
            (plen / 256) as u8,
            (plen % 256) as u8,
        ];
        proof {
            assert(out@ =~= head);
        }
        let mut i: usize = 0;
        while i < pixels.len()
            invariant
                i <= pixels@.len(),
                pixels@ == sv_lit_pixels(self@.out.screen),
                forall|k: int| 0 <= k < pixels@.len() ==> (#[trigger] pixels@[k]).0 < 256
                    && pixels@[k].1 < 256,
                out@ == head + pixel_bytes(pixels@.take(i as int)),
            decreases pixels@.len() - i,
        {
            out.push(pixels[i].0 as u8);
            out.push(pixels[i].1 as u8);
            proof {
                assert(out@ =~= head + pixel_bytes(pixels@.take(i as int + 1)));
            }
            i = i + 1;
        }
        proof {
            assert(pixels@.take(pixels@.len() as int) =~= pixels@);
        }
        proof {
            use_type_invariant(self.address_register);
        }
        let a = self.address_register.into_u32();
        out.push((a / 256) as u8);
        out.push((a % 256) as u8);
        let mut rg = to_bytes(&self.data_registers);
        proof {
            assert(rg@ =~= bytes_of(self@.regs));
        }
        out.append(&mut rg);
        out.push(self.sound_timer.into_u8());
        out.push(self.delay_timer.into_u8());
        proof {
            use_type_invariant(self.pc);
            use_type_invariant(self.sound_timer);
            use_type_invariant(self.delay_timer);
            vstd::arithmetic::power2::lemma2_to64();
        }
        let p = self.pc.into_u32();
        out.push((p / 256) as u8);
        out.push((p % 256) as u8);
        match self.awaiting_key {
            Some(d) => {
                out.push(0xF0 + d as u8);
            },
            None => {
                out.push(0);
            },
        }
        let ghost head2 = head + pixel_bytes(sv_lit_pixels(self@.out.screen)) + seq![
            (self@.addr / 256) as u8,
            (self@.addr % 256) as u8,
        ] + bytes_of(self@.regs) + seq![
            self@.sound as u8,
            self@.delay as u8,
            (self@.pc / 256) as u8,
            (self@.pc % 256) as u8,
            (match self@.awaiting {
                Some(x) => (0xF0 + x) as u8,
                None => 0u8,
            }),
        ];
        proof {
            assert(out@ =~= head2);
        }
        let mut j: usize = 0;
        while j < self.stack.len()
            invariant
                j <= self.stack@.len(),
                out@ == head2 + pair_bytes(self@.stack.take(j as int)),
                self@.stack.len() == self.stack@.len(),
            decreases self.stack@.len() - j,
        {
            let v = self.stack[j];
            proof {
                use_type_invariant(v);
                vstd::arithmetic::power2::lemma2_to64();
            }
            let w = v.into_u32();
            out.push((w / 256) as u8);
            out.push((w % 256) as u8);
            proof {
                assert(out@ =~= head2 + pair_bytes(self@.stack.take(j as int + 1)));
            }
            j = j + 1;
        }
        proof {
            assert(self@.stack.take(self@.stack.len() as int) =~= self@.stack);
            assert(out@ =~= spec_save(self@));
        }
        out
    }

    /// Restores scale, scroll offsets and the lit pixels of a snapshot's
    /// screen section; the event outbox is left alone.
    fn restore_screen(&mut self, data: &Vec<u8>, plen: usize)
        requires
            data@.len() >= 4357 + plen,
            plen <= 65535,
            1 <= data@[4352],
        ensures
            final(self)@ == (EngineView {
                out: OutputView {
                    screen: sv_apply_lit(
                        sv_cleared(snap_screen0(data@, old(self)@.out.screen)),
                        snap_pairs(data@, plen as int),
                    ),
                    pending: old(self)@.out.pending,
                },
                ..old(self)@
            }),
    {
        let ghost pairs = snap_pairs(data@, plen as int);
        let scr = self.output.get_screen_mut();
        scr.set_scale(data[4352] as usize);
        scr.set_scroll_down(data[4353] as usize);
        scr.set_scroll_side(data[4354] as usize);
        scr.clear();
        let ghost base = sv_cleared(snap_screen0(data@, old(self)@.out.screen));
        proof {
            assert(scr@ =~= base);
            assert(pairs.take(0) =~= Seq::<(usize, usize)>::empty());
        }
        let count = plen / 2;
        let mut k: usize = 0;
        while k < count
            invariant
                k <= count,
                count == plen / 2,
                plen <= 65535,
                data@.len() >= 4357 + plen,
                pairs == snap_pairs(data@, plen as int),
                scr@ == sv_apply_lit(base, pairs.take(k as int)),
            decreases count - k,
        {
            let x = data[4357 + 2 * k] as usize;
            let y = data[4357 + 2 * k + 1] as usize;
            scr.set(x, y, true);
            proof {
                assert(pairs.take(k as int + 1).drop_last() =~= pairs.take(k as int));
                assert(pairs.take(k as int + 1).last() == (x, y));
                assert(scr@ == sv_apply_lit(base, pairs.take(k as int + 1)));
            }
            k = k + 1;
        }
        proof {
            assert(pairs.take(count as int) =~= pairs);
        }
    }

    /// Decodes a snapshot written by [`Self::save`], replacing the whole
    /// engine state and clearing the halt flag; the screen keeps its
    /// dimensions and the event outbox is untouched. A blob that is too
    /// short or carries a zero scale byte is rejected without touching
    /// anything.
    #[verifier::rlimit(100)]
    pub fn load(&mut self, data: Vec<u8>) -> (r: Result<(), Chip8Error>)
        requires
            engine_wf(old(self)@),
        ensures
            spec_load(data@, old(self)@) matches Some(s2) ==> r is Ok && final(self)@ == s2,
            spec_load(data@, old(self)@) is None ==> r == Err::<(), Chip8Error>(
                Chip8Error::BadSnapshot,
            ) && final(self)@ == old(self)@,
            engine_wf(final(self)@),
    {
        let ghost s0 = self@;
        if data.len() < 4357 {
            return Err(Chip8Error::BadSnapshot);
        }
        let scale_b = data[4352];
        let plen = (data[4355] as usize) * 256 + (data[4356] as usize);
        let screen_end = 4357 + plen;
        if scale_b == 0 || data.len() < screen_end + 23 {
            return Err(Chip8Error::BadSnapshot);
        }
        let mut pool: Vec<u8> = Vec::new();
        let mut i: usize = 0;
        while i < 256
            invariant
                i <= 256,
                data@.len() >= 4357,
                pool@.len() == i,
                forall|k: int| 0 <= k < i ==> pool@[k] == data@[k],
            decreases 256 - i,
        {
            pool.push(data[i]);
            i = i + 1;
        }
        self.set_random_pool(pool);
        proof {
            assert(self@.rand =~= Seq::new(256, |k: int| data@[k] as u32));
        }
        let mut membytes: Vec<u8> = Vec::new();
        let mut j: usize = 0;
        while j < 4096
            invariant
                j <= 4096,
                data@.len() >= 4357,
                membytes@.len() == j,
                forall|k: int| 0 <= k < j ==> membytes@[k] == data@[256 + k],
            decreases 4096 - j,
        {
            membytes.push(data[256 + j]);
            j = j + 1;
        }
        self.load_memory(membytes, 0);
        proof {
            assert(self@.mem =~= Seq::new(4096, |k: int| data@[256 + k] as u32));
        }
        self.restore_screen(&data, plen);
        self.address_register.set_by_u32(
            (data[screen_end] as u32) * 256 + data[screen_end + 1] as u32,
        );
        proof {
            vstd::arithmetic::power2::lemma2_to64();
            vstd::arithmetic::div_mod::lemma_small_mod(
                (data@[screen_end as int] * 256 + data@[screen_end as int + 1]) as nat,
                65536,
            );
        }
        let ghost before_regs = self@;
        let mut g: usize = 0;
        while g < 16
            invariant
                g <= 16,
                data@.len() >= screen_end + 23,
                screen_end == 4357 + plen,
                plen <= 65535,
                self.data_registers@.len() == 16,
                forall|k: int| 0 <= k < g ==> self@.regs[k] == data@[screen_end + 2 + k],
                self@ == (EngineView { regs: self@.regs, ..before_regs }),
            decreases 16 - g,
        {
            proof {
                vstd::arithmetic::power2::lemma2_to64();
            }
            let b = Byte::from_u8(data[screen_end + 2 + g]);
            let ghost prev = self.data_registers@;
            let ghost pre_view = self@;
            proof {
                assert(forall|k: int| 0 <= k < 16 ==> pre_view.regs[k] == prev[k]@);
            }
            self.data_registers[g] = b;
            proof {
                assert(forall|k: int| 0 <= k < 16 && k != g ==> self@.regs[k] == prev[k]@);
                assert forall|k: int| 0 <= k < g + 1 implies self@.regs[k] == data@[screen_end + 2
                    + k] by {
                    if k < g {
                        assert(pre_view.regs[k] == data@[screen_end + 2 + k]);
                    }
                }
                assert(self@ =~~= (EngineView { regs: self@.regs, ..pre_view }));
            }
            g = g + 1;
        }
        proof {
            assert(self@.regs =~= Seq::new(16, |k: int| data@[screen_end + 2 + k] as u32));
            vstd::arithmetic::power2::lemma2_to64();
        }
        self.sound_timer = Byte::from_u8(data[screen_end + 18]);
        self.delay_timer = Byte::from_u8(data[screen_end + 19]);
        self.pc.set_by_u32((data[screen_end + 20] as u32) * 256 + data[screen_end + 21] as u32);
        proof {
            vstd::arithmetic::div_mod::lemma_small_mod(
                (data@[screen_end as int + 20] * 256 + data@[screen_end as int + 21]) as nat,
                65536,
            );
        }
        let aw = data[screen_end + 22];
        if aw == 0 {
            self.awaiting_key = None;
        } else {
            proof {
                let a = aw;
                assert(a & 0xF == a % 16) by (bit_vector);
            }
            self.awaiting_key = Some((aw & 0xF) as usize);
        }
        self.finished = false;
        let scount = (data.len() - (screen_end + 23)) / 2;
        let mut st: Vec<Address> = Vec::new();
        let mut t: usize = 0;
        while t < scount
            invariant
                t <= scount,
                data@.len() >= screen_end + 23,
                data@.len() <= usize::MAX,
                scount == ((data@.len() - screen_end - 23) as int) / 2,
                screen_end == 4357 + plen,
                plen <= 65535,
                st@.len() == t,
                forall|k: int| 0 <= k < t ==> st@[k]@ == data@[screen_end + 23 + 2 * k] * 256
                    + data@[screen_end + 24 + 2 * k],
            decreases scount - t,
        {
            proof {
                vstd::arithmetic::power2::lemma2_to64();
            }
            let hi = data[screen_end + 23 + 2 * t];
            let lo = data[screen_end + 23 + 2 * t + 1];
            let v = Address::from((hi as u32) * 256 + lo as u32);
            st.push(v);
            t = t + 1;
        }
        self.stack = st;
        proof {
            let s2 = spec_load(data@, s0)->0;
            assert(self@.stack =~= s2.stack);
            assert(self@ =~~= s2);
        }
        Ok(())
    }

    /// Executes one cycle against the snapshot of currently held hex keys:
    /// a halted engine does nothing, a pending key wait only polls the keys,
    /// and otherwise one instruction is fetched, validated and dispatched.
    /// A fault is reported without touching any state.
    #[verifier::rlimit(100)]
    pub fn interpret_next(&mut self, pressed_keys: &Vec<u8>) -> (r: Result<(), Chip8Error>)
        requires
            engine_wf(old(self)@),
        ensures
            spec_step(old(self)@, pressed_keys@) matches Ok(s) ==> r is Ok && final(self)@ == s,
            spec_step(old(self)@, pressed_keys@) matches Err(e) ==> r == Err::<(), Chip8Error>(e)
                && final(self)@ == old(self)@,
            engine_wf(final(self)@),
    {
        let ghost s0 = self@;
        if self.finished {
            proof {
                lemma_step_finished(s0, pressed_keys@);
            }
            return Ok(());
        }
        if self.awaiting_key.is_some() {
            proof {
                lemma_step_waiting(s0, pressed_keys@);
            }
            self.poll_key_wait(pressed_keys);
            return Ok(());
        }
        proof {
            use_type_invariant(self.pc);
            vstd::arithmetic::power2::lemma2_to64();
        }
        let pc_us = self.pc.into_usize();
        if pc_us + 1 >= 4096 {
            proof {
                lemma_step_fault(s0, pressed_keys@, Chip8Error::MemoryOutOfRange);
            }
            return Err(Chip8Error::MemoryOutOfRange);
        }
        let fields = self.fetch_fields(pc_us);
        let l3_reg = fields.0;
        let top = fields.1;
        let nnn = fields.2;
        let kk = fields.3;
        let n = fields.4;
        let x = fields.5;
        let y_idx = fields.6;
        let ghost op = spec_opcode(s0);
        let vx = self.data_registers[x];
        let vy = self.data_registers[y_idx];
        // validate before any state is touched, so a fault changes nothing
        if let Some(e) = self.validate_op(top, nnn, kk, n, x, Ghost(op)) {
            proof {
                lemma_step_fault(s0, pressed_keys@, e);
            }
            return Err(e);
        }
        proof {
            use_type_invariant(self.pc);
            vstd::arithmetic::power2::lemma2_to64();
        }
        if !(top == 0x0 || top == 0x1 || top == 0x2 || top == 0xB) {
            self.pc.increase_by_u32(2);
        }
        let ghost s1 = self@;
        proof {
            assert(s1 =~~= if pre_increments(op) {
                EngineView { pc: ((s0.pc + 2) % 65536) as u32, ..s0 }
            } else {
                s0
            });
            lemma_step_exec(s0, pressed_keys@);
            assert(spec_step(s0, pressed_keys@) == Ok::<EngineView, Chip8Error>(
                spec_exec(s1, op, pressed_keys@),
            ));
            lemma_validate_pc_irrelevant(s0, s1.pc, op);
            assert(s1 =~~= (EngineView { pc: s1.pc, ..s0 }));
            assert(spec_validate(s1, op) is None);
        }
        self.exec_op(top, x, nnn, kk, n, l3_reg, vx, vy, pressed_keys, Ghost(op));
        Ok(())
    }

    /// Fetches the instruction word at the program counter and splits it
    /// into the fields the dispatcher reads: the 12-bit address part as a
    /// register, then the family nibble, address, low byte, low nibble, and
    /// the two register indices.
    fn fetch_fields(&self, pc_us: usize) -> (r: (Address, u32, u32, u32, u32, usize, usize))
        requires
            engine_wf(self@),
            pc_us == self@.pc,
            pc_us + 1 < 4096,
        ensures
            ({
                let op = spec_opcode(self@);
                &&& op < 65536
                &&& r.0@ == op_nnn(op)
                &&& r.1 == op_top(op)
                &&& r.2 == op_nnn(op)
                &&& r.3 == op_kk(op)
                &&& r.4 == op_n(op)
                &&& r.5 == op_x(op)
                &&& r.6 == op_y(op)
                &&& r.5 < 16
                &&& r.6 < 16
            }),
    {
        let m1 = self.memory[pc_us];
        let m2 = self.memory[pc_us + 1];
        proof {
            use_type_invariant(m1);
            use_type_invariant(m2);
            vstd::arithmetic::power2::lemma2_to64();
            vstd::arithmetic::div_mod::lemma_small_mod(m1@ as nat, 256);
            vstd::arithmetic::div_mod::lemma_small_mod(m2@ as nat, 65536);
            vstd::arithmetic::div_mod::lemma_small_mod((m1@ * 256 + m2@) as nat, 65536);
        }
        let current = Address::from_combined(&m1, &m2);
        let ghost op = current@;
        proof {
            assert(op == spec_opcode(self@));
            assert(op < 65536);
        }
        let top = current.get_bitrange(12, 4).into_u32();
        let l3_reg = current.get_bitrange(0, 12);
        let nnn = l3_reg.into_u32();
        let kk_reg = current.get_bitrange(0, 8);
        let kk = kk_reg.into_u32();
        let n_reg = current.get_bitrange(0, 4);
        let n = n_reg.into_u32();
        let x_reg = current.get_bitrange(8, 4);
        let x = x_reg.into_usize();
        let y_idx = current.get_bitrange(4, 4).into_usize();
        proof {
            vstd::arithmetic::power2::lemma2_to64();
            assert((op as nat) / 4096 < 16);
            vstd::arithmetic::div_mod::lemma_small_mod((op as nat) / 4096, 16);
            assert(top == op_top(op));
            assert(nnn == op_nnn(op));
            assert(kk == op_kk(op));
            assert(n == op_n(op));
            assert(x == op_x(op));
            assert(y_idx == op_y(op));
            vstd::arithmetic::div_mod::lemma_mod_bound((op / 256) as int, 16);
            vstd::arithmetic::div_mod::lemma_mod_bound((op / 16) as int, 16);
        }
        (l3_reg, top, nnn, kk, n, x, y_idx)
    }

    /// Polls the key snapshot while a key wait is pending: the first held
    /// hex digit is stored into the waiting register and the wait is
    /// cleared; with no hex key held, nothing changes.
    fn poll_key_wait(&mut self, pressed_keys: &Vec<u8>)
        requires
            engine_wf(old(self)@),
            old(self)@.awaiting is Some,
        ensures
            final(self)@ == (match first_hex(pressed_keys@) {
                Some(d) => EngineView {
                    regs: old(self)@.regs.update(old(self)@.awaiting->0 as int, d as u32),
                    awaiting: None,
                    ..old(self)@
                },
                None => old(self)@,
            }),
            engine_wf(final(self)@),
    {
        let ghost s0 = self@;
        let x = match self.awaiting_key {
            Some(x) => x,
            None => 0,
        };
        let mut i: usize = 0;
        let mut found: Option<u8> = None;
        proof {
            assert(pressed_keys@.skip(0) =~= pressed_keys@);
        }
        while i < pressed_keys.len() && found.is_none()
            invariant
                i <= pressed_keys@.len(),
                found is None ==> first_hex(pressed_keys@) == first_hex(
                    pressed_keys@.skip(i as int),
                ),
                found is Some ==> first_hex(pressed_keys@) == found,
            decreases pressed_keys@.len() - i,
        {
            let k = pressed_keys[i];
            if k < 16 {
                found = Some(k);
            } else {
                proof {
                    assert(pressed_keys@.skip(i as int).drop_first() =~= pressed_keys@.skip(
                        i as int + 1,
                    ));
                }
            }
            i = i + 1;
        }
        if let Some(d) = found {
            proof {
                vstd::arithmetic::power2::lemma2_to64();
            }
            self.data_registers[x] = Byte::from_u8(d);
            self.awaiting_key = None;
            proof {
                assert(self@ =~~= (EngineView {
                    regs: s0.regs.update(x as int, d as u32),
                    awaiting: None,
                    ..s0
                }));
            }
        } else {
            proof {
                assert(pressed_keys@.skip(pressed_keys@.len() as int) =~= Seq::<u8>::empty());
            }
        }
    }

    /// Checks one fetched instruction word against the instruction set and
    /// the memory bounds of its operands, reporting the fault the engine
    /// would raise; nothing is mutated.
    fn validate_op(
        &self,
        top: u32,
        nnn: u32,
        kk: u32,
        n: u32,
        x: usize,
        Ghost(op): Ghost<u32>,
    ) -> (r: Option<Chip8Error>)
        requires
            engine_wf(self@),
            top == op_top(op),
            nnn == op_nnn(op),
            kk == op_kk(op),
            n == op_n(op),
            x == op_x(op),
        ensures
            r == spec_validate(self@, op),
    {
        proof {
            reveal(spec_validate);
            use_type_invariant(self.address_register);
            vstd::arithmetic::power2::lemma2_to64();
        }
        let addr_us = self.address_register.into_usize();
        if top == 0x0 {
            if kk / 16 != 0xC {
                if nnn == 0x0EE {
                    if self.stack.len() == 0 {
                        return Some(Chip8Error::StackUnderflow);
                    }
                } else if !(nnn == 0 || nnn == 0x0E0 || nnn == 0x0FD || nnn == 0x0FB || nnn
                    == 0x0FC || nnn == 0x0FE || nnn == 0x0FF) {
                    return Some(Chip8Error::UnknownOpcode);
                }
            }
        } else if top == 0x8 {
            if !(n <= 7 || n == 0xE) {
                return Some(Chip8Error::UnknownOpcode);
            }
        } else if top == 0xD {
            if n == 0 && self.output.get_screen().get_scale() == 1 {
                if addr_us + 16 >= 4096 {
                    return Some(Chip8Error::MemoryOutOfRange);
                }
            } else if n != 0 {
                if addr_us + (n as usize) - 1 >= 4096 {
                    return Some(Chip8Error::MemoryOutOfRange);
                }
            }
        } else if top == 0xE {
            if !(kk == 0x9E || kk == 0xA1) {
                return Some(Chip8Error::UnknownOpcode);
            }
        } else if top == 0xF {
            if kk == 0x33 {
                if addr_us + 2 >= 4096 {
                    return Some(Chip8Error::MemoryOutOfRange);
                }
            } else if kk == 0x55 || kk == 0x65 {
                if addr_us + x >= 4096 {
                    return Some(Chip8Error::MemoryOutOfRange);
                }
            } else if !(kk == 0x07 || kk == 0x0A || kk == 0x15 || kk == 0x18 || kk == 0x1E || kk
                == 0x29 || kk == 0x30) {
                return Some(Chip8Error::UnknownOpcode);
            }
        }
        None
    }

    /// Dispatches one validated instruction, the program counter already
    /// advanced for the families that expect it.
    #[verifier::rlimit(100)]
    fn exec_op(
        &mut self,
        top: u32,
        x: usize,
        nnn: u32,
        kk: u32,
        n: u32,
        l3_reg: Address,
        vx: Byte,
        vy: Byte,
        pressed_keys: &Vec<u8>,
        Ghost(op): Ghost<u32>,
    )
        requires
            engine_wf(old(self)@),
            op < 65536,
            top == op_top(op),
            x == op_x(op),
            nnn == op_nnn(op),
            kk == op_kk(op),
            n == op_n(op),
            l3_reg@ == op_nnn(op),
            x < 16,
            vx@ == old(self)@.regs[op_x(op)],
            vy@ == old(self)@.regs[op_y(op)],
            spec_validate(old(self)@, op) is None,
        ensures
            final(self)@ == spec_exec(old(self)@, op, pressed_keys@),
            engine_wf(final(self)@),
    {
        let ghost s1 = self@;
        proof {
            reveal(spec_exec);
            reveal(spec_validate);
            use_type_invariant(self.pc);
            use_type_invariant(vx);
            use_type_invariant(vy);
            use_type_invariant(self.address_register);
            vstd::arithmetic::power2::lemma2_to64();
        }
        if top == 0x0 {
            self.exec_system(nnn, kk, n, Ghost(op), Ghost(pressed_keys@));
        } else if top == 0x1 {
            if nnn != self.pc.into_u32() {
                self.pc.set(&l3_reg);
                proof {
                    use_type_invariant(l3_reg);
                }
            } else {
                self.finished = true;
            }
        } else if top == 0x2 {
            let ret = self.pc.add_by_u32(2);
            self.stack.push(ret);
            self.pc.set(&l3_reg);
            proof {
                use_type_invariant(l3_reg);
                assert(self@.stack =~= s1.stack.push(((s1.pc + 2) % 65536) as u32));
            }
        } else if top == 0x3 {
            if vx.into_u32() == kk {
                self.pc.increase_by_u32(2);
            }
        } else if top == 0x4 {
            if vx.into_u32() != kk {
                self.pc.increase_by_u32(2);
            }
        } else if top == 0x5 {
            if vx.into_u32() == vy.into_u32() {
                self.pc.increase_by_u32(2);
            }
        } else if top == 0x6 {
            self.data_registers[x] = Byte::from(kk);
        } else if top == 0x7 {
            let mut rx = vx;
            rx.increase_by_u32(kk);
            self.data_registers[x] = rx;
        } else if top == 0x8 {
            self.exec_alu(x, n, vx, vy, Ghost(op), Ghost(pressed_keys@));
        } else if top == 0x9 {
            if vx.into_u32() != vy.into_u32() {
                self.pc.increase_by_u32(2);
            }
        } else if top == 0xA {
            self.address_register.set(&l3_reg);
            proof {
                use_type_invariant(l3_reg);
            }
        } else if top == 0xB {
            let v0 = self.data_registers[0];
            proof {
                use_type_invariant(v0);
            }
            let dest = (nnn + v0.into_u32()) % 4096;
            proof {
                vstd::arithmetic::div_mod::lemma_mod_bound((nnn + v0@) as int, 4096);
            }
            self.pc.set_by_u32(dest);
            proof {
                vstd::arithmetic::div_mod::lemma_small_mod(dest as nat, 65536);
            }
        } else if top == 0xC {
            let nr = self.get_next_random();
            let kk_byte = Byte::from(kk);
            let mut rx = nr;
            rx.and(&kk_byte);
            proof {
                use_type_invariant(nr);
                let a = nr@;
                let bmask = kk_byte@;
                assert((a & bmask) < 256) by (bit_vector)
                    requires
                        a < 256,
                ;
                vstd::arithmetic::div_mod::lemma_small_mod((nr@ & kk_byte@) as nat, 256);
            }
            self.data_registers[x] = rx;
            proof {
                assert(self@ =~~= spec_exec(s1, op, pressed_keys@));
            }
        } else if top == 0xD {
            let big = n == 0 && self.output.get_screen().get_scale() == 1;
            let collision = self.draw_span(vx, vy, big, n);
            self.data_registers[0xF] = Byte::from(if collision {
                1
            } else {
                0
            });
            proof {
                assert(self@ =~~= spec_exec(s1, op, pressed_keys@));
            }
        } else if top == 0xE {
            let held = contains_key(pressed_keys, vx);
            if kk == 0x9E {
                if held {
                    self.pc.increase_by_u32(2);
                }
            } else {
                if !held {
                    self.pc.increase_by_u32(2);
                }
            }
        } else {
            self.exec_memory_family(x, kk, vx, Ghost(op), Ghost(pressed_keys@));
        }
        proof {
            assert(self@ =~~= spec_exec(s1, op, pressed_keys@));
        }
    }

    /// The system family (top nibble 0): screen clears, scrolls, scale
    /// switches, subroutine return, and the explicit halt.
    fn exec_system(
        &mut self,
        nnn: u32,
        kk: u32,
        n: u32,
        Ghost(op): Ghost<u32>,
        Ghost(keys): Ghost<Seq<u8>>,
    )
        requires
            op_top(op) == 0x0,
            nnn == op_nnn(op),
            kk == op_kk(op),
            n == op_n(op),
            spec_validate(old(self)@, op) is None,
            engine_wf(old(self)@),
        ensures
            final(self)@ == spec_exec(old(self)@, op, keys),
            engine_wf(final(self)@),
    {
        let ghost s1 = self@;
        proof {
            reveal(spec_exec);
            reveal(spec_validate);
            use_type_invariant(self.pc);
            vstd::arithmetic::power2::lemma2_to64();
        }
        if kk / 16 == 0xC {
            self.output.scroll_down(n as isize);
            self.pc.increase_by_u32(2);
        } else if nnn == 0 {
            self.pc.increase_by_u32(2);
        } else if nnn == 0x0E0 {
            self.output.clear();
            self.pc.increase_by_u32(2);
        } else if nnn == 0x0EE {
            let ret = self.stack.pop().unwrap();
            self.pc = ret;
            proof {
                assert(self@.stack =~= s1.stack.drop_last());
            }
        } else if nnn == 0x0FD {
            self.finished = true;
        } else if nnn == 0x0FB {
            self.output.scroll_side(4);
            self.pc.increase_by_u32(2);
        } else if nnn == 0x0FC {
            self.output.scroll_side(-4);
            self.pc.increase_by_u32(2);
        } else if nnn == 0x0FE {
            self.output.get_screen_mut().set_scale(2);
            self.pc.increase_by_u32(2);
        } else {
            self.output.get_screen_mut().set_scale(1);
            self.pc.increase_by_u32(2);
        }
        proof {
            assert(self@ =~~= spec_exec(s1, op, keys));
        }
    }

    /// The arithmetic family (top nibble 8): moves, bitwise operations,
    /// add and subtract with the flags register, and the one-bit shifts.
    fn exec_alu(
        &mut self,
        x: usize,
        n: u32,
        vx: Byte,
        vy: Byte,
        Ghost(op): Ghost<u32>,
        Ghost(keys): Ghost<Seq<u8>>,
    )
        requires
            op_top(op) == 0x8,
            x == op_x(op),
            n == op_n(op),
            x < 16,
            old(self)@.regs.len() == 16,
            vx@ == old(self)@.regs[op_x(op)],
            vy@ == old(self)@.regs[op_y(op)],
            engine_wf(old(self)@),
        ensures
            final(self)@ == spec_exec(old(self)@, op, keys),
            engine_wf(final(self)@),
    {
        let ghost s1 = self@;
        proof {
            reveal(spec_exec);
            use_type_invariant(vx);
            use_type_invariant(vy);
            vstd::arithmetic::power2::lemma2_to64();
        }
        let mut rx = vx;
        let wrote_flag: bool;
        let mut flag = false;
        if n == 0x0 {
            rx.set(&vy);
            wrote_flag = false;
        } else if n == 0x1 {
            proof {
                lemma_byte_bitops(vx@, vy@);
            }
            rx.or(&vy);
            wrote_flag = false;
        } else if n == 0x2 {
            proof {
                lemma_byte_bitops(vx@, vy@);
            }
            rx.and(&vy);
            wrote_flag = false;
        } else if n == 0x3 {
            proof {
                lemma_byte_bitops(vx@, vy@);
            }
            rx.xor(&vy);
            wrote_flag = false;
        } else if n == 0x4 {
            flag = rx.increase(&vy);
            wrote_flag = true;
        } else if n == 0x5 {
            flag = rx.decrease(&vy);
            wrote_flag = true;
            proof {
                vstd::arithmetic::div_mod::lemma_small_mod(vy@ as nat, 256);
            }
        } else if n == 0x6 {
            flag = rx.shift_right();
            wrote_flag = true;
        } else if n == 0x7 {
            flag = rx.reversed_decrease(&vy);
            wrote_flag = true;
            proof {
                vstd::arithmetic::div_mod::lemma_small_mod(vy@ as nat, 256);
                vstd::arithmetic::div_mod::lemma_small_mod(vx@ as nat, 256);
            }
        } else {
            flag = rx.shift_left();
            wrote_flag = true;
        }
        self.data_registers[x] = rx;
        if wrote_flag {
            self.data_registers[0xF] = Byte::from(if flag {
                1
            } else {
                0
            });
        }
        proof {
            assert(self@ =~~= spec_exec(s1, op, keys));
        }
    }

    /// The memory family (top nibble F): timer moves, the key wait, address
    /// register arithmetic, font lookups, the decimal decomposition, and the
    /// block transfers between registers and memory.
    fn exec_memory_family(
        &mut self,
        x: usize,
        kk: u32,
        vx: Byte,
        Ghost(op): Ghost<u32>,
        Ghost(keys): Ghost<Seq<u8>>,
    )
        requires
            op_top(op) == 0xF,
            x == op_x(op),
            kk == op_kk(op),
            x < 16,
            old(self)@.mem.len() == 4096,
            old(self)@.regs.len() == 16,
            vx@ == old(self)@.regs[op_x(op)],
            kk == 0x33 ==> old(self)@.addr + 2 < 4096,
            !(kk == 0x07 || kk == 0x0A || kk == 0x15 || kk == 0x18 || kk == 0x1E || kk == 0x29
                || kk == 0x30 || kk == 0x33) ==> old(self)@.addr + x < 4096,
            engine_wf(old(self)@),
        ensures
            final(self)@ == spec_exec(old(self)@, op, keys),
            engine_wf(final(self)@),
    {
        let ghost s1 = self@;
        proof {
            reveal(spec_exec);
            use_type_invariant(vx);
            use_type_invariant(self.address_register);
            vstd::arithmetic::power2::lemma2_to64();
        }
        let addr_us = self.address_register.into_usize();
        if kk == 0x07 {
            let mut rx = vx;
            rx.set(&self.delay_timer);
            self.data_registers[x] = rx;
        } else if kk == 0x0A {
            self.awaiting_key = Some(x);
        } else if kk == 0x15 {
            self.delay_timer.set(&vx);
        } else if kk == 0x18 {
            if vx.into_u32() == 0 {
                self.output.stop_buzz();
            }
            self.sound_timer.set(&vx);
        } else if kk == 0x1E {
            self.address_register.increase_by_u32(vx.into_u32());
        } else if kk == 0x29 {
            proof {
                vstd::arithmetic::div_mod::lemma_small_mod((vx@ * 5) as nat, 65536);
            }
            self.address_register.set_by_u32(vx.into_u32() * 5);
        } else if kk == 0x30 {
            proof {
                vstd::arithmetic::div_mod::lemma_small_mod((vx@ * 10 + 80) as nat, 65536);
            }
            self.address_register.set_by_u32(vx.into_u32() * 10 + 80);
        } else if kk == 0x33 {
            self.memory[addr_us] = Byte::from(vx.into_u32() / 100);
            self.memory[addr_us + 1] = Byte::from(vx.into_u32() % 100 / 10);
            self.memory[addr_us + 2] = Byte::from(vx.into_u32() % 10);
            proof {
                assert(self@.mem =~= spec_exec(s1, op, keys).mem);
            }
        } else if kk == 0x55 {
            self.store_registers(x);
        } else {
            self.load_registers(x);
        }
        proof {
            assert(self@ =~~= spec_exec(s1, op, keys));
        }
    }

    /// Draws the sprite byte `b` onto row `y` starting at column `vx`,
    /// toggling one pixel per set bit; returns the accumulated collision
    /// flag.
    fn draw_byte_at(&mut self, b: Byte, vx: Byte, y: usize, collided: bool) -> (r: bool)
        ensures
            ({
                let d = draw_byte_from(old(self)@.out, collided, b@, vx@, y as int, 0);
                final(self)@ == (EngineView { out: d.0, ..old(self)@ }) && r == d.1
            }),
    {
        let mut coll = collided;
        let mut pix: u32 = 0;
        proof {
            vstd::arithmetic::power2::lemma2_to64();
            use_type_invariant(vx);
        }
        while pix < 8
            invariant
                pix <= 8,
                (vx@ as nat) < 256,
                draw_byte_from(self@.out, coll, b@, vx@, y as int, pix as nat) == draw_byte_from(
                    old(self)@.out,
                    collided,
                    b@,
                    vx@,
                    y as int,
                    0,
                ),
                self@ == (EngineView { out: self@.out, ..old(self)@ }),
            decreases 8 - pix,
        {
            proof {
                vstd::arithmetic::power2::lemma2_to64();
            }
            if b.get_bit((7 - pix) as u8) {
                let sx = vx.add_by_u32(pix).into_usize();
                let c = self.output.swap(sx, y);
                coll = coll || c;
                proof {
                    assert(self@ =~~= (EngineView { out: self@.out, ..old(self)@ }));
                }
            }
            pix = pix + 1;
        }
        coll
    }

    /// Draws a whole sprite: the 16-row unscaled variant when `big`, else an
    /// `n`-row sprite; returns the collision flag.
    fn draw_span(&mut self, vx: Byte, vy: Byte, big: bool, n: u32) -> (r: bool)
        requires
            self@.mem.len() == 4096,
            big ==> self@.addr + 16 < 4096,
            !big ==> n <= 15 && (n == 0 || self@.addr + n - 1 < 4096),
        ensures
            ({
                let rows = if big {
                    big_rows()
                } else {
                    normal_rows(n)
                };
                let d = draw_rows(
                    old(self)@.out,
                    false,
                    old(self)@.mem,
                    old(self)@.addr,
                    vx@,
                    vy@,
                    rows,
                );
                final(self)@ == (EngineView { out: d.0, ..old(self)@ }) && r == d.1
            }),
    {
        let ghost rows = if big {
            big_rows()
        } else {
            normal_rows(n)
        };
        let mut coll = false;
        let total: u32 = if big {
            32
        } else {
            n
        };
        let mut k: u32 = 0;
        proof {
            assert(rows.skip(0) =~= rows);
            use_type_invariant(self.address_register);
            use_type_invariant(vy);
            vstd::arithmetic::power2::lemma2_to64();
        }
        while k < total
            invariant
                k <= total,
                total == if big {
                    32u32
                } else {
                    n
                },
                rows == if big {
                    big_rows()
                } else {
                    normal_rows(n)
                },
                big ==> old(self)@.addr + 16 < 4096,
                !big ==> n <= 15 && (n == 0 || old(self)@.addr + n - 1 < 4096),
                (old(self)@.addr as nat) < 65536,
                (vy@ as nat) < 256,
                old(self)@.mem.len() == 4096,
                self@ == (EngineView { out: self@.out, ..old(self)@ }),
                draw_rows(
                    self@.out,
                    coll,
                    old(self)@.mem,
                    old(self)@.addr,
                    vx@,
                    vy@,
                    rows.skip(k as int),
                ) == draw_rows(
                    old(self)@.out,
                    false,
                    old(self)@.mem,
                    old(self)@.addr,
                    vx@,
                    vy@,
                    rows,
                ),
            decreases total - k,
        {
            let off: u32 = if big {
                k / 2 + k % 2
            } else {
                k
            };
            let row: u32 = if big {
                k / 2
            } else {
                k
            };
            proof {
                assert(rows[k as int] == (off, row));
                vstd::arithmetic::power2::lemma2_to64();
                use_type_invariant(self.address_register);
                vstd::arithmetic::div_mod::lemma_small_mod((self@.addr + off) as nat, 65536);
            }
            let bidx = self.address_register.add_by_u32(off).into_usize();
            let b = self.memory[bidx];
            proof {
                assert(b@ == old(self)@.mem[((old(self)@.addr + off) % 65536) as int]);
                use_type_invariant(vy);
                vstd::arithmetic::power2::lemma2_to64();
            }
            let y = vy.add_by_u32(row).into_usize();
            coll = self.draw_byte_at(b, vx, y, coll);
            proof {
                assert(rows.skip(k as int).drop_first() =~= rows.skip(k as int + 1));
                assert(self@ =~~= (EngineView { out: self@.out, ..old(self)@ }));
            }
            k = k + 1;
        }
        coll
    }

    /// Copies registers `0..=x` into memory at the address register.
    fn store_registers(&mut self, x: usize)
        requires
            self@.mem.len() == 4096,
            self@.regs.len() == 16,
            x < 16,
            self@.addr + x < 4096,
        ensures
            final(self)@ == (EngineView {
                mem: Seq::new(4096, |j: int| if old(self)@.addr <= j <= old(self)@.addr + x {
                    old(self)@.regs[j - old(self)@.addr]
                } else {
                    old(self)@.mem[j]
                }),
                ..old(self)@
            }),
    {
        let base = self.address_register.into_usize();
        let mut i: usize = 0;
        while i <= x
            invariant
                i <= x + 1,
                x < 16,
                base == old(self)@.addr,
                base + x < 4096,
                self.memory@.len() == 4096,
                self.data_registers@.len() == 16,
                self@.mem.len() == 4096,
                self@.regs == old(self)@.regs,
                forall|j: int| 0 <= j < 4096 && !(base <= j < base + i)
                    ==> self@.mem[j] == old(self)@.mem[j],
                forall|j: int| base <= j < base + i ==> self@.mem[j] == old(self)@.regs[j - base],
                self@ == (EngineView { mem: self@.mem, ..old(self)@ }),
            decreases x + 1 - i,
        {
            let b = self.data_registers[i];
            let ghost prev = self.memory@;
            let ghost pre_view = self@;
            proof {
                assert(forall|j: int| 0 <= j < 4096 ==> pre_view.mem[j] == prev[j]@);
                assert(pre_view.regs[i as int] == b@);
                assert(b@ == old(self)@.regs[i as int]);
            }
            self.memory[base + i] = b;
            proof {
                assert(self.memory@ == prev.update((base + i) as int, b));
                assert(forall|j: int| 0 <= j < 4096 && j != base + i ==> self@.mem[j] == prev[j]@);
                assert forall|j: int| base <= j < base + i + 1 implies self@.mem[j]
                    == old(self)@.regs[j - base] by {
                    if j < base + i {
                        assert(pre_view.mem[j] == old(self)@.regs[j - base]);
                    }
                }
                assert(self@ =~= (EngineView { mem: self@.mem, ..old(self)@ }));
            }
            i = i + 1;
        }
        proof {
            assert(self@.mem =~= Seq::new(4096, |j: int| if old(self)@.addr <= j <= old(self)@.addr
                + x {
                old(self)@.regs[j - old(self)@.addr]
            } else {
                old(self)@.mem[j]
            }));
            assert(self@ =~~= (EngineView {
                mem: Seq::new(4096, |j: int| if old(self)@.addr <= j <= old(self)@.addr + x {
                    old(self)@.regs[j - old(self)@.addr]
                } else {
                    old(self)@.mem[j]
                }),
                ..old(self)@
            }));
        }
    }

    /// Fills registers `0..=x` from memory at the address register.
    fn load_registers(&mut self, x: usize)
        requires
            self@.mem.len() == 4096,
            self@.regs.len() == 16,
            x < 16,
            self@.addr + x < 4096,
        ensures
            final(self)@ == (EngineView {
                regs: Seq::new(16, |j: int| if j <= x {
                    old(self)@.mem[old(self)@.addr + j]
                } else {
                    old(self)@.regs[j]
                }),
                ..old(self)@
            }),
    {
        let base = self.address_register.into_usize();
        let mut i: usize = 0;
        while i <= x
            invariant
                i <= x + 1,
                x < 16,
                base == old(self)@.addr,
                base + x < 4096,
                self.memory@.len() == 4096,
                self.data_registers@.len() == 16,
                self@.mem == old(self)@.mem,
                self@.regs.len() == 16,
                forall|j: int| i <= j < 16 ==> self@.regs[j] == old(self)@.regs[j],
                forall|j: int| 0 <= j < i ==> self@.regs[j] == old(self)@.mem[base + j],
                self@ == (EngineView { regs: self@.regs, ..old(self)@ }),
            decreases x + 1 - i,
        {
            let b = self.memory[base + i];
            let ghost prev = self.data_registers@;
            let ghost pre_view = self@;
            proof {
                assert(forall|j: int| 0 <= j < 16 ==> pre_view.regs[j] == prev[j]@);
                assert(pre_view.mem[(base + i) as int] == b@);
                assert(b@ == old(self)@.mem[base + i]);
            }
            self.data_registers[i] = b;
            proof {
                assert(self.data_registers@ == prev.update(i as int, b));
                assert(forall|j: int| 0 <= j < 16 && j != i ==> self@.regs[j] == prev[j]@);
                assert forall|j: int| 0 <= j < i + 1 implies self@.regs[j] == old(self)@.mem[base
                    + j] by {
                    if j < i {
                        assert(pre_view.regs[j] == old(self)@.mem[base + j]);
                    }
                }
                assert(self@ =~= (EngineView { regs: self@.regs, ..old(self)@ }));
            }
            i = i + 1;
        }
        proof {
            assert(self@.regs =~= Seq::new(16, |j: int| if j <= x {
                old(self)@.mem[old(self)@.addr + j]
            } else {
                old(self)@.regs[j]
            }));
            assert(self@ =~~= (EngineView {
                regs: Seq::new(16, |j: int| if j <= x {
                    old(self)@.mem[old(self)@.addr + j]
                } else {
                    old(self)@.regs[j]
                }),
                ..old(self)@
            }));
        }
    }
}


/// The snapshot codec is byte-exact: decoding what [`spec_save`] encoded
/// reproduces the engine state, with only the halt flag cleared (halts are
/// not part of the format). The state must be a real engine state: byte
/// registers hold bytes, addresses fit 16 bits, the screen is well formed
/// and its pixel list fits the two-byte length field.
#[verifier::rlimit(100)]
#[verifier::spinoff_prover]
pub proof fn lemma_snapshot_round_trip(s: EngineView)
    requires
        engine_wf(s),
        s.rand.len() == 256,
        forall|i: int| 0 <= i < s.rand.len() ==> s.rand[i] < 256,
        forall|i: int| 0 <= i < s.mem.len() ==> s.mem[i] < 256,
        forall|i: int| 0 <= i < s.regs.len() ==> s.regs[i] < 256,
        forall|i: int| 0 <= i < s.stack.len() ==> s.stack[i] < 65536,
        s.addr < 65536,
        s.pc < 65536,
        s.delay < 256,
        s.sound < 256,
        s.out.screen.grid.len() == s.out.screen.width * s.out.screen.height,
        s.out.screen.width <= 256,
        s.out.screen.height <= 256,
        1 <= s.out.screen.scale <= 255,
        s.out.screen.scroll_down <= 255,
        s.out.screen.scroll_side <= 255,
        s.out.screen.grid.len() <= 32767,
    ensures
        spec_load(spec_save(s), s) == Some(EngineView { finished: false, ..s }),
{
    let data = spec_save(s);
    let sc = s.out.screen;
    let pix = sv_lit_pixels(sc);
    crate::screen::lemma_lit_pixels_in_bounds(sc, sc.grid.len());
    let plen0 = 2 * pix.len() as int;
    assert(plen0 < 65536);
    let head = bytes_of(s.rand) + bytes_of(s.mem) + seq![
        sc.scale as u8,
        sc.scroll_down as u8,
        sc.scroll_side as u8,
        (plen0 / 256) as u8,
        (plen0 % 256) as u8,
    ];
    let mid = head + pixel_bytes(pix);
    let tail1 = mid + seq![(s.addr / 256) as u8, (s.addr % 256) as u8];
    let tail2 = tail1 + bytes_of(s.regs);
    let tail3 = tail2 + seq![
        s.sound as u8,
        s.delay as u8,
        (s.pc / 256) as u8,
        (s.pc % 256) as u8,
        (match s.awaiting {
            Some(x) => (0xF0 + x) as u8,
            None => 0u8,
        }),
    ];
    assert(data == tail3 + pair_bytes(s.stack));
    assert(head.len() == 4357);
    assert(mid.len() == 4357 + plen0);
    assert(data.len() == 4380 + plen0 + 2 * s.stack.len());
    let screen_end = 4357 + plen0;
    // the five metadata bytes
    assert(data[4352] == sc.scale as u8);
    assert(data[4353] == sc.scroll_down as u8);
    assert(data[4354] == sc.scroll_side as u8);
    assert(data[4355] == (plen0 / 256) as u8);
    assert(data[4356] == (plen0 % 256) as u8);
    vstd::arithmetic::div_mod::lemma_fundamental_div_mod(plen0, 256);
    vstd::arithmetic::div_mod::lemma_mod_bound(plen0, 256);
    assert(data[4355] * 256 + data[4356] == plen0);
    assert(data[4352] != 0);
    assert(data.len() >= screen_end + 23);
    let r = spec_load(data, s)->0;
    // the random pool and memory come back byte for byte
    assert(r.rand =~= s.rand);
    assert(r.mem =~= s.mem);
    // the pixel pairs are the lit pixels, and relighting them restores the grid
    assert(snap_pairs(data, plen0) =~= pix);
    assert(snap_screen0(data, sc) =~= sc);
    crate::screen::lemma_relight(sc, sc.grid.len());
    assert(sv_apply_lit(sv_cleared(sc), pix).grid =~= sc.grid);
    assert(sv_apply_lit(sv_cleared(sc), pix) =~= sc);
    assert(r.out.screen == sc);
    // address register, registers, timers and program counter round-trip
    vstd::arithmetic::div_mod::lemma_fundamental_div_mod(s.addr as int, 256);
    assert(data[screen_end] == (s.addr / 256) as u8 && data[screen_end + 1] == (
    s.addr % 256) as u8);
    assert(r.addr == s.addr);
    assert(r.regs =~= s.regs);
    assert(r.sound == s.sound && r.delay == s.delay);
    vstd::arithmetic::div_mod::lemma_fundamental_div_mod(s.pc as int, 256);
    assert(r.pc == s.pc);
    // the key-wait marker byte
    match s.awaiting {
        Some(x) => {
            let marker = (0xF0 + x) as u8;
            assert(data[screen_end + 22] == marker);
            assert(marker != 0);
            vstd::arithmetic::div_mod::lemma_mod_multiples_vanish(15, x as int, 16);
            vstd::arithmetic::div_mod::lemma_small_mod(x as nat, 16);
            assert(marker % 16 == x);
            assert(r.awaiting == s.awaiting);
        },
        None => {
            assert(data[screen_end + 22] == 0);
            assert(r.awaiting == s.awaiting);
        },
    }
    // the call stack comes back pair by pair
    assert(((data.len() - screen_end - 23) as int) / 2 == s.stack.len());
    assert forall|i: int| 0 <= i < s.stack.len() implies data[screen_end + 23 + 2 * i] * 256
        + data[screen_end + 24 + 2 * i] == s.stack[i] by {
        assert(data[screen_end + 23 + 2 * i] == (s.stack[i] / 256) as u8);
        assert(data[screen_end + 24 + 2 * i] == (s.stack[i] % 256) as u8);
        vstd::arithmetic::div_mod::lemma_fundamental_div_mod(s.stack[i] as int, 256);
        vstd::arithmetic::div_mod::lemma_mod_bound(s.stack[i] as int, 256);
    }
    assert(r.stack =~= s.stack);
    assert(r.out.pending == s.out.pending);
    assert(r.out =~~= s.out);
    assert(r =~~= (EngineView { finished: false, ..s }));
    assert(spec_load(spec_save(s), s) == Some(EngineView { finished: false, ..s }));
}

/// Whether bit `p` (leftmost first) of the sprite byte `b` is set.
pub open spec fn bit_on(b: u32, p: int) -> bool {
    ((b as nat) / pow2((7 - p) as nat)) % 2 == 1
}

/// Whether drawing bit `p` of a sprite byte at column base `vx` on row `y`
/// lands on grid cell `j` of a `w` by `h` screen.
pub open spec fn bit_targets(vx: u32, p: int, y: int, w: nat, h: nat, j: int) -> bool {
    0 <= y < h && (vx + p) % 256 < w && j == y * w + (vx + p) % 256
}

/// Whether cell `j` is toggled an odd number of times by bits `pix..8` of
/// the sprite byte `b` drawn on row `y`.
pub open spec fn byte_flips(b: u32, vx: u32, y: int, pix: nat, w: nat, h: nat, j: int) -> bool
    decreases 8 - pix,
{
    if pix >= 8 {
        false
    } else {
        (bit_on(b, pix as int) && bit_targets(vx, pix as int, y, w, h, j)) != byte_flips(
            b,
            vx,
            y,
            (pix + 1) as nat,
            w,
            h,
            j,
        )
    }
}

/// Whether cell `j` is toggled an odd number of times by drawing the listed
/// sprite rows.
pub open spec fn rows_flips(
    mem: Seq<u32>,
    addr: u32,
    vx: u32,
    vy: u32,
    rows: Seq<(u32, u32)>,
    w: nat,
    h: nat,
    j: int,
) -> bool
    decreases rows.len(),
{
    if rows.len() == 0 {
        false
    } else {
        let b = mem[((addr + rows[0].0) % 65536) as int];
        byte_flips(b, vx, ((vy + rows[0].1) % 256) as int, 0, w, h, j) != rows_flips(
            mem,
            addr,
            vx,
            vy,
            rows.drop_first(),
            w,
            h,
            j,
        )
    }
}

/// At drawing scale 1, toggling one pixel flips exactly its grid cell, and
/// everything else about the screen is kept.
proof fn lemma_swap_char(o: OutputView, x: int, y: int)
    requires
        o.screen.scale == 1,
        o.screen.grid.len() == o.screen.width * o.screen.height,
        0 <= x <= 0xFFFF,
        0 <= y <= 0xFFFF,
    ensures
        ({
            let d = crate::output::out_swap(o, x, y).0;
            &&& d.screen == (ScreenView { grid: d.screen.grid, ..o.screen })
            &&& d.screen.grid.len() == o.screen.grid.len()
            &&& forall|j: int| 0 <= j < o.screen.grid.len() ==> d.screen.grid[j] == (
            o.screen.grid[j] != (sv_in_bounds(o.screen, x, y) && j == y * o.screen.width + x))
        }),
{
    reveal_with_fuel(crate::output::out_set_targets, 3);
    let s = o.screen;
    assert(crate::screen::spec_get_pix(s, x, y) =~= seq![(x as usize, y as usize)]);
    assert(crate::screen::spec_get_pix(s, x, y).drop_first() =~= Seq::<(usize, usize)>::empty());
    let d = crate::output::out_swap(o, x, y).0;
    if sv_in_bounds(s, x, y) {
        assert(0 <= y * s.width + x < s.grid.len()) by (nonlinear_arith)
            requires
                0 <= x < s.width,
                0 <= y < s.height,
                s.grid.len() == s.width * s.height,
        ;
        assert(d.screen.grid =~= s.grid.update(y * s.width + x, !s.grid[y * s.width + x]));
    }
}

/// Drawing the bits `pix..8` of a sprite byte flips exactly the cells of
/// [`byte_flips`], and keeps the screen's dimensions, scale and scroll state.
proof fn lemma_draw_byte_char(o: OutputView, coll: bool, b: u32, vx: u32, y: int, pix: nat)
    requires
        o.screen.scale == 1,
        o.screen.grid.len() == o.screen.width * o.screen.height,
        0 <= y <= 0xFFFF,
    ensures
        ({
            let d = draw_byte_from(o, coll, b, vx, y, pix).0;
            &&& d.screen == (ScreenView { grid: d.screen.grid, ..o.screen })
            &&& d.screen.grid.len() == o.screen.grid.len()
            &&& forall|j: int| 0 <= j < o.screen.grid.len() ==> d.screen.grid[j] == (
            o.screen.grid[j] != byte_flips(b, vx, y, pix, o.screen.width, o.screen.height, j))
        }),
    decreases 8 - pix,
{
    let s = o.screen;
    if pix < 8 {
        if bit_on(b, pix as int) {
            let xcol = ((vx + pix) % 256) as int;
            lemma_swap_char(o, xcol, y);
            let sw = crate::output::out_swap(o, xcol, y);
            lemma_draw_byte_char(sw.0, coll || sw.1, b, vx, y, (pix + 1) as nat);
            assert forall|j: int| 0 <= j < s.grid.len() implies draw_byte_from(
                o,
                coll,
                b,
                vx,
                y,
                pix,
            ).0.screen.grid[j] == (s.grid[j] != byte_flips(b, vx, y, pix, s.width, s.height, j)) by {
                assert(sw.0.screen.grid[j] == (s.grid[j] != (sv_in_bounds(s, x_of(vx, pix), y)
                    && j == y * s.width + x_of(vx, pix)))) by {
                    assert(x_of(vx, pix) == xcol);
                }
                assert((sv_in_bounds(s, xcol, y) && j == y * s.width + xcol) == bit_targets(
                    vx,
                    pix as int,
                    y,
                    s.width,
                    s.height,
                    j,
                ));
            }
        } else {
            lemma_draw_byte_char(o, coll, b, vx, y, (pix + 1) as nat);
        }
    }
}

/// The column an individual sprite bit lands on.
spec fn x_of(vx: u32, pix: nat) -> int {
    (vx + pix) % 256
}

/// Drawing a list of sprite rows flips exactly the cells of [`rows_flips`],
/// and keeps the screen's dimensions, scale and scroll state.
proof fn lemma_draw_rows_char(
    o: OutputView,
    coll: bool,
    mem: Seq<u32>,
    addr: u32,
    vx: u32,
    vy: u32,
    rows: Seq<(u32, u32)>,
)
    requires
        o.screen.scale == 1,
        o.screen.grid.len() == o.screen.width * o.screen.height,
    ensures
        ({
            let d = draw_rows(o, coll, mem, addr, vx, vy, rows).0;
            &&& d.screen == (ScreenView { grid: d.screen.grid, ..o.screen })
            &&& d.screen.grid.len() == o.screen.grid.len()
            &&& forall|j: int| 0 <= j < o.screen.grid.len() ==> d.screen.grid[j] == (
            o.screen.grid[j] != rows_flips(
                mem,
                addr,
                vx,
                vy,
                rows,
                o.screen.width,
                o.screen.height,
                j,
            ))
        }),
    decreases rows.len(),
{
    if rows.len() > 0 {
        let s = o.screen;
        let b = mem[((addr + rows[0].0) % 65536) as int];
        let yy = ((vy + rows[0].1) % 256) as int;
        lemma_draw_byte_char(o, coll, b, vx, yy, 0);
        let d1 = draw_byte_from(o, coll, b, vx, yy, 0);
        lemma_draw_rows_char(d1.0, d1.1, mem, addr, vx, vy, rows.drop_first());
    }
}

/// The draw opcode's collision rule, toggle half: at drawing scale 1,
/// drawing any ordinary sprite twice at the same coordinates toggles every
/// affected pixel back, restoring the screen exactly; only the queued draw
/// events differ. (Which flag value the second draw reports depends on what
/// the first draw found: over blank screen area it is always a collision,
/// shown pixel by pixel in
/// [`crate::output::lemma_pixel_toggle_round_trip`].)
pub proof fn lemma_draw_twice_restores(
    o: OutputView,
    mem: Seq<u32>,
    addr: u32,
    vx: u32,
    vy: u32,
    n: u32,
)
    requires
        o.screen.scale == 1,
        o.screen.grid.len() == o.screen.width * o.screen.height,
    ensures
        ({
            let d1 = draw_rows(o, false, mem, addr, vx, vy, normal_rows(n));
            let d2 = draw_rows(d1.0, false, mem, addr, vx, vy, normal_rows(n));
            d2.0.screen == o.screen
        }),
{
    let d1 = draw_rows(o, false, mem, addr, vx, vy, normal_rows(n));
    let d2 = draw_rows(d1.0, false, mem, addr, vx, vy, normal_rows(n));
    lemma_draw_rows_char(o, false, mem, addr, vx, vy, normal_rows(n));
    lemma_draw_rows_char(d1.0, false, mem, addr, vx, vy, normal_rows(n));
    assert(d2.0.screen.grid =~= o.screen.grid);
    assert(d2.0.screen =~= o.screen);
}

/// Halting is terminal: a halted engine steps to itself on every key
/// snapshot, mutating nothing — no register, no memory cell, no pixel and no
/// queued event.
pub proof fn lemma_halted_engine_is_inert(s: EngineView, keys: Seq<u8>)
    requires
        s.finished,
    ensures
        spec_step(s, keys) == Ok::<EngineView, Chip8Error>(s),
{
}

/// A jump onto its own address is the canonical program end: executing it
/// halts the engine and changes nothing else, whatever keys are held.
pub proof fn lemma_self_loop_halts(s: EngineView, keys: Seq<u8>)
    requires
        !s.finished,
        s.awaiting is None,
        s.pc + 1 < 4096,
        op_top(spec_opcode(s)) == 0x1,
        op_nnn(spec_opcode(s)) == s.pc,
    ensures
        spec_step(s, keys) == Ok::<EngineView, Chip8Error>(EngineView { finished: true, ..s }),
{
    reveal(spec_validate);
    reveal(spec_exec);
    lemma_step_exec(s, keys);
}

/// The low byte of every register value, in order.
fn to_bytes(v: &Vec<Byte>) -> (r: Vec<u8>)
    ensures
        r@.len() == v@.len(),
        forall|i: int| 0 <= i < v@.len() ==> r@[i] == v@[i]@ as u8,
{
    let mut r: Vec<u8> = Vec::new();
    let mut i: usize = 0;
    while i < v.len()
        invariant
            i <= v@.len(),
            r@.len() == i,
            forall|k: int| 0 <= k < i ==> r@[k] == v@[k]@ as u8,
        decreases v@.len() - i,
    {
        let b = v[i];
        proof {
            use_type_invariant(b);
            vstd::arithmetic::power2::lemma2_to64();
            vstd::arithmetic::div_mod::lemma_small_mod((b@ % 256) as nat, 256);
        }
        r.push(b.into_u8());
        i = i + 1;
    }
    r
}

/// Bitwise combinations of byte values stay byte values.
proof fn lemma_byte_bitops(a: u32, b: u32)
    requires
        a < 256,
        b < 256,
    ensures
        (a | b) < 256,
        (a ^ b) < 256,
        (a & b) < 256,
        (a | b) % 256 == (a | b),
        (a ^ b) % 256 == (a ^ b),
        (a & b) % 256 == (a & b),
{
    assert((a | b) < 256 && (a ^ b) < 256 && (a & b) < 256) by (bit_vector)
        requires
            a < 256,
            b < 256,
    ;
    vstd::arithmetic::div_mod::lemma_small_mod((a | b) as nat, 256);
    vstd::arithmetic::div_mod::lemma_small_mod((a ^ b) as nat, 256);
    vstd::arithmetic::div_mod::lemma_small_mod((a & b) as nat, 256);
}

/// Whether the key snapshot holds the hex digit in `vx`; values outside the
/// keypad are never held.
fn contains_key(keys: &Vec<u8>, vx: Byte) -> (r: bool)
    ensures
        r == key_pressed(keys@, vx@),
{
    if vx.into_u32() >= 16 {
        return false;
    }
    proof {
        use_type_invariant(vx);
        vstd::arithmetic::power2::lemma2_to64();
        vstd::arithmetic::div_mod::lemma_small_mod(vx@ as nat, 256);
    }
    let target = vx.into_u8();
    let mut i: usize = 0;
    while i < keys.len()
        invariant
            i <= keys@.len(),
            vx@ < 16,
            target == vx@ as u8,
            forall|j: int| 0 <= j < i ==> keys@[j] != target,
        decreases keys@.len() - i,
    {
        if keys[i] == target {
            proof {
                assert(keys@[i as int] == target);
                assert(keys@.contains(target));
            }
            return true;
        }
        i = i + 1;
    }
    proof {
        assert(!keys@.contains(target));
    }
    false
}

/// An 8-bit register holding a positive value drops by exactly one under
/// masked subtraction of one.
proof fn lemma_dec_one(v: u32)
    requires
        1 <= v < 256,
    ensures
        crate::fixed_bit_numbers::dec_spec(8, v as int, 1) == v - 1,
{
    vstd::arithmetic::power2::lemma2_to64();
    vstd::arithmetic::div_mod::lemma_small_mod(1nat, 256);
    vstd::arithmetic::div_mod::lemma_mod_multiples_vanish(1, v - 1, 256);
    vstd::arithmetic::div_mod::lemma_small_mod((v - 1) as nat, 256);
}

} // verus!
