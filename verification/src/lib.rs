//! A verified virtual machine for the classic CHIP-8 instruction set: 4 KB of
//! memory, sixteen 8-bit registers, a 16-bit index register, a call stack, two
//! 60 Hz countdown timers, a 64x32 monochrome framebuffer and a 16-key keypad.
//!
//! The machine is created from a program image with [`Chip8::load_program`],
//! driven one instruction at a time with [`Chip8::step`], and ticked at 60 Hz
//! with [`Chip8::tick_timers`]. The exact effect of every opcode is written
//! down once, as the specification relation [`semantics::step_rel`], and
//! `step` is proved to satisfy it. Rendering, audio and input are left to the
//! caller, which reads the framebuffer and the sound flag and supplies a
//! keypad snapshot on every step.

pub mod font;
pub mod isa;
pub mod laws;
pub mod semantics;
pub mod state;
pub mod text;
pub mod vm;

pub use font::Font;
pub use text::generate_display_string;
pub use vm::Chip8;
pub use state::DisplayState;
pub use state::VmError;
