//! A CHIP-8 class virtual machine: fixed-width registers, a fetch/decode/execute
//! engine with exact overflow, borrow and shift semantics, a bounded monochrome
//! framebuffer, a byte-exact snapshot codec, and a typed event router with
//! wildcard subscription matching.
//!
//! Hardware facing work (window, audio device, raw input polling, file access)
//! is out of scope here: the engine communicates with it only through plain
//! event values that a host shell sends and receives.

pub mod app_state;
pub mod emulator;
pub mod events;
pub mod fixed_bit_numbers;
pub mod interpreter;
pub mod output;
pub mod router;
pub mod screen;
pub mod state;
