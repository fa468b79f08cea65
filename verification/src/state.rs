use vstd::prelude::*;

verus! {

/// The number of addressable memory bytes.
pub const MEMORY_SIZE: usize = 4096;

/// The address at which a loaded program begins, and the initial value of the
/// program counter.
pub const PROGRAM_START: usize = 512;

/// The number of pixels in the 64x32 framebuffer.
pub const DISPLAY_SIZE: usize = 2048;

/// Whether one call to [`crate::vm::Chip8::step`] changed the framebuffer, so
/// that a caller can skip redundant redraws.
#[derive(Debug, Clone, Copy, PartialEq, Eq, Structural)]
pub enum DisplayState {
    Updated,
    NotUpdated,
}

/// Everything that can go wrong while loading or running a program. A program
/// that raises one of the runtime conditions is malformed and its run should
/// be abandoned; the machine itself is left exactly as it was before the
/// failing call.
#[derive(Debug, Clone, Copy, PartialEq, Eq, Structural)]
pub enum VmError {
    /// The program image is longer than the memory left above
    /// [`PROGRAM_START`].
    ProgramTooLarge,
    /// A return instruction was executed with no return address on the stack.
    EmptyStackReturn,
    /// The two fetched bytes match no instruction pattern; carries the raw
    /// 16-bit word.
    InvalidInstruction(u16),
    /// The font-address instruction was given a register value above 0xF,
    /// which names no glyph.
    FontIndexOutOfRange,
    /// The program counter or the index register pointed an access past the
    /// end of memory.
    MemoryOutOfBounds,
}

/// The mathematical model of the whole machine: what every contract of this
/// crate speaks about. The framebuffer is row-major, pixel `(y, x)` at index
/// `y * 64 + x`.
#[verifier::ext_equal]
pub struct VmView {
    pub mem: Seq<u8>,
    pub display: Seq<bool>,
    pub pc: u16,
    pub index: u16,
    pub stack: Seq<u16>,
    pub delay: u8,
    pub sound: u8,
    pub regs: Seq<u8>,
}

/// Well-formedness of the model: the fixed sizes of memory, framebuffer and
/// register file.
pub open spec fn view_wf(v: VmView) -> bool {
    &&& v.mem.len() == MEMORY_SIZE
    &&& v.display.len() == DISPLAY_SIZE
    &&& v.regs.len() == 16
}

} // verus!
