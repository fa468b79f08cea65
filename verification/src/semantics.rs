use vstd::prelude::*;

use crate::font::font_byte;
use crate::isa::Instr;
use crate::isa::spec_decode;
use crate::state::DisplayState;
use crate::state::VmError;
use crate::state::VmView;

verus! {

/// 8-bit addition with wraparound.
pub open spec fn wrap_add8(a: u8, b: u8) -> u8 {
    ((a as int + b as int) % 256) as u8
}

/// 8-bit subtraction with wraparound (two's-complement wrap).
pub open spec fn wrap_sub8(a: u8, b: u8) -> u8 {
    ((a as int - b as int + 256) % 256) as u8
}

/// 16-bit addition with wraparound.
pub open spec fn wrap_add16(a: u16, b: u16) -> u16 {
    ((a as int + b as int) % 65536) as u16
}

/// The machine after the program counter has stepped over one instruction.
pub open spec fn bump(v: VmView) -> VmView {
    VmView { pc: (v.pc + 2) as u16, ..v }
}

/// The machine with register `x` set to `val`.
pub open spec fn upd_reg(v: VmView, x: u8, val: u8) -> VmView {
    VmView { regs: v.regs.update(x as int, val), ..v }
}

/// The machine after a conditional skip: one more instruction is stepped over
/// when `cond` holds.
pub open spec fn skip_if(v: VmView, cond: bool) -> VmView {
    if cond {
        bump(v)
    } else {
        v
    }
}

/// An all-off framebuffer.
pub open spec fn blank_display() -> Seq<bool> {
    Seq::new(2048, |p: int| false)
}

/// Whether keypad key `vx` is down in the snapshot `keys`; a value of 16 or
/// more names no key and never counts as pressed.
pub open spec fn key_down(keys: Seq<bool>, vx: u8) -> bool {
    vx < 16 && keys[vx as int]
}

/// Whether any of the 16 keys is down.
pub open spec fn any_key(keys: Seq<bool>) -> bool {
    exists|k: int| 0 <= k < 16 && keys[k]
}

/// The lowest pressed key index at or above `i`, or 16 if none is pressed.
pub open spec fn lowest_key(keys: Seq<bool>, i: int) -> int
    decreases 16 - i,
{
    if i < 0 || i >= 16 {
        16
    } else if keys[i] {
        i
    } else {
        lowest_key(keys, i + 1)
    }
}

/// When no key below `i` is pressed, the search for the lowest pressed key
/// may as well start at `i`.
pub proof fn lemma_lowest_key_from(keys: Seq<bool>, i: int)
    requires
        0 <= i <= 16,
        forall|j: int| 0 <= j < i ==> !keys[j],
    ensures
        lowest_key(keys, 0) == lowest_key(keys, i),
    decreases i,
{
    if i > 0 {
        lemma_lowest_key_from(keys, i - 1);
    }
}

/// Bit `dx` (0 = leftmost, most significant) of the sprite row byte `b`.
pub open spec fn sprite_pixel(b: u8, dx: int) -> bool {
    (b >> ((7 - dx) as u8)) & 1 == 1
}

/// Whether drawing an `n`-row sprite whose rows start at memory address `i`,
/// with top-left corner `(x0, y0)`, touches framebuffer index `p` with a lit
/// sprite bit. Sprites clip at the right and bottom screen edges: a pixel
/// index `p` always lies on screen, so only sprite bits that fall inside the
/// screen are ever drawn, and none wraps around an edge.
pub open spec fn sprite_hits(mem: Seq<u8>, i: int, n: int, x0: int, y0: int, p: int) -> bool {
    let y = p / 64;
    let x = p % 64;
    &&& y0 <= y < y0 + n
    &&& x0 <= x < x0 + 8
    &&& sprite_pixel(mem[i + (y - y0)], x - x0)
}

/// The framebuffer after the draw instruction: every pixel hit by a lit
/// sprite bit is toggled, every other pixel keeps its state.
pub open spec fn draw_display(
    disp: Seq<bool>,
    mem: Seq<u8>,
    i: int,
    n: int,
    x0: int,
    y0: int,
) -> Seq<bool> {
    Seq::new(
        2048,
        |p: int|
            if sprite_hits(mem, i, n, x0, y0, p) {
                !disp[p]
            } else {
                disp[p]
            },
    )
}

/// Whether the draw instruction reports a collision: some lit sprite bit
/// lands on a pixel that is already on, turning it off.
pub open spec fn draw_collision(
    disp: Seq<bool>,
    mem: Seq<u8>,
    i: int,
    n: int,
    x0: int,
    y0: int,
) -> bool {
    exists|p: int| 0 <= p < 2048 && sprite_hits(mem, i, n, x0, y0, p) && disp[p]
}

/// The hundreds digit of `v`.
pub open spec fn bcd_hundreds(v: u8) -> u8 {
    (v as int / 100) as u8
}

/// The tens digit of `v`.
pub open spec fn bcd_tens(v: u8) -> u8 {
    ((v as int / 10) % 10) as u8
}

/// The ones digit of `v`.
pub open spec fn bcd_ones(v: u8) -> u8 {
    (v as int % 10) as u8
}

/// Memory after registers `V0..=VX` are copied to addresses `i..=i + x`.
pub open spec fn store_regs_mem(mem: Seq<u8>, regs: Seq<u8>, i: int, x: int) -> Seq<u8> {
    Seq::new(
        4096,
        |a: int|
            if i <= a <= i + x {
                regs[a - i]
            } else {
                mem[a]
            },
    )
}

/// Registers after addresses `i..=i + x` are copied into `V0..=VX`.
pub open spec fn load_regs_regs(regs: Seq<u8>, mem: Seq<u8>, i: int, x: int) -> Seq<u8> {
    Seq::new(
        16,
        |j: int|
            if j <= x {
                mem[i + j]
            } else {
                regs[j]
            },
    )
}

/// The machine as initialize-from-program leaves it: memory zero but for the
/// font table at 0x050..0x0A0 and the program image at 0x200, the program
/// counter at 0x200, the framebuffer dark, the stack empty, and every
/// register and timer zero. The program never overlaps the font: it starts at
/// address 512 and the font ends at address 159.
pub open spec fn load_view(prog: Seq<u8>) -> VmView {
    VmView {
        mem: Seq::new(
            4096,
            |a: int|
                if 80 <= a < 160 {
                    font_byte((a - 80) / 5, (a - 80) % 5)
                } else if 512 <= a < 512 + prog.len() {
                    prog[a - 512]
                } else {
                    0u8
                },
        ),
        display: blank_display(),
        pc: 512,
        index: 0,
        stack: Seq::empty(),
        delay: 0,
        sound: 0,
        regs: Seq::new(16, |j: int| 0u8),
    }
}

/// What one call to [`crate::vm::Chip8::step`] does: relates the machine
/// `pre` before the call and the keypad snapshot `keys` to the machine `post`
/// after it and the call's result `r`.
///
/// The two instruction bytes are fetched at the program counter, the counter
/// steps over them, and then the instruction acts; a jump or call target is
/// therefore absolute, and a subroutine returns to the instruction after the
/// call. Every fatal condition leaves the machine exactly as it was (`post ==
/// pre`), the stepped-over counter included. The only freedom this relation
/// leaves is the byte drawn by the random instruction: every other effect is
/// pinned exactly.
pub open spec fn step_rel(
    pre: VmView,
    keys: Seq<bool>,
    post: VmView,
    r: Result<DisplayState, VmError>,
) -> bool {
    let ok_nu = Ok::<DisplayState, VmError>(DisplayState::NotUpdated);
    let ok_up = Ok::<DisplayState, VmError>(DisplayState::Updated);
    if pre.pc >= 4095 {
        r == Err::<DisplayState, VmError>(VmError::MemoryOutOfBounds) && post == pre
    } else {
        let b0 = pre.mem[pre.pc as int];
        let b1 = pre.mem[pre.pc as int + 1];
        let s = bump(pre);
        match spec_decode(b0, b1) {
            Instr::ClearScreen => r == ok_up && post == VmView { display: blank_display(), ..s },
            Instr::Ret => if s.stack.len() == 0 {
                r == Err::<DisplayState, VmError>(VmError::EmptyStackReturn) && post == pre
            } else {
                r == ok_nu && post == VmView {
                    pc: s.stack.last(),
                    stack: s.stack.drop_last(),
                    ..s
                }
            },
            Instr::Jump(nnn) => r == ok_nu && post == VmView { pc: nnn, ..s },
            Instr::Call(nnn) => r == ok_nu && post == VmView {
                pc: nnn,
                stack: s.stack.push(s.pc),
                ..s
            },
            Instr::SkipEqImm(x, nn) => r == ok_nu && post == skip_if(s, s.regs[x as int] == nn),
            Instr::SkipNeImm(x, nn) => r == ok_nu && post == skip_if(s, s.regs[x as int] != nn),
            Instr::SkipEqReg(x, y) => r == ok_nu && post == skip_if(
                s,
                s.regs[x as int] == s.regs[y as int],
            ),
            Instr::SetImm(x, nn) => r == ok_nu && post == upd_reg(s, x, nn),
            Instr::AddImm(x, nn) => r == ok_nu && post == upd_reg(
                s,
                x,
                wrap_add8(s.regs[x as int], nn),
            ),
            Instr::Assign(x, y) => r == ok_nu && post == upd_reg(s, x, s.regs[y as int]),
            Instr::Or(x, y) => r == ok_nu && post == upd_reg(
                s,
                x,
                s.regs[x as int] | s.regs[y as int],
            ),
            Instr::And(x, y) => r == ok_nu && post == upd_reg(
                s,
                x,
                s.regs[x as int] & s.regs[y as int],
            ),
            Instr::Xor(x, y) => r == ok_nu && post == upd_reg(
                s,
                x,
                s.regs[x as int] ^ s.regs[y as int],
            ),
            Instr::AddReg(x, y) => {
                let sum = wrap_add8(s.regs[x as int], s.regs[y as int]);
                let carry: u8 = if s.regs[x as int] + s.regs[y as int] > 255 {
                    1
                } else {
                    0
                };
                r == ok_nu && post == upd_reg(upd_reg(s, x, sum), 15, carry)
            },
            Instr::SubReg(x, y) => r == ok_nu && post == upd_reg(
                s,
                x,
                wrap_sub8(s.regs[x as int], s.regs[y as int]),
            ),
            Instr::ShiftRight(x) => {
                let vx = s.regs[x as int];
                let low: u8 = (vx as int % 2) as u8;
                r == ok_nu && post == upd_reg(upd_reg(s, x, (vx as int / 2) as u8), 15, low)
            },
            Instr::SubFrom(x, y) => r == ok_nu && post == upd_reg(
                s,
                x,
                wrap_sub8(s.regs[y as int], s.regs[x as int]),
            ),
            Instr::ShiftLeft(x) => {
                let vx = s.regs[x as int];
                let high: u8 = (vx as int / 128) as u8;
                r == ok_nu && post == upd_reg(
                    upd_reg(s, x, ((vx as int * 2) % 256) as u8),
                    15,
                    high,
                )
            },
            Instr::SkipNeReg(x, y) => r == ok_nu && post == skip_if(
                s,
                s.regs[x as int] != s.regs[y as int],
            ),
            Instr::SetIndex(nnn) => r == ok_nu && post == VmView { index: nnn, ..s },
            Instr::JumpOffset(nnn) => r == ok_nu && post == VmView {
                pc: (nnn + s.regs[0]) as u16,
                ..s
            },
            Instr::Random(x, nn) => r == ok_nu && (exists|b: u8| post == upd_reg(s, x, b & nn)),
            Instr::Draw(x, y, n) => {
                let i = s.index as int;
                if i + n > 4096 {
                    r == Err::<DisplayState, VmError>(VmError::MemoryOutOfBounds) && post == pre
                } else {
                    let x0 = s.regs[x as int] as int % 64;
                    let y0 = s.regs[y as int] as int % 32;
                    let coll = draw_collision(s.display, s.mem, i, n as int, x0, y0);
                    r == ok_up && post == VmView {
                        display: draw_display(s.display, s.mem, i, n as int, x0, y0),
                        regs: s.regs.update(15, if coll { 1u8 } else { 0u8 }),
                        ..s
                    }
                }
            },
            Instr::SkipKeyPressed(x) => r == ok_nu && post == skip_if(
                s,
                key_down(keys, s.regs[x as int]),
            ),
            Instr::SkipKeyNotPressed(x) => r == ok_nu && post == skip_if(
                s,
                !key_down(keys, s.regs[x as int]),
            ),
            Instr::GetDelay(x) => r == ok_nu && post == upd_reg(s, x, s.delay),
            Instr::WaitKey(x) => r == ok_nu && if any_key(keys) {
                post == upd_reg(s, x, lowest_key(keys, 0) as u8)
            } else {
                post == pre
            },
            Instr::SetDelay(x) => r == ok_nu && post == VmView { delay: s.regs[x as int], ..s },
            Instr::SetSound(x) => r == ok_nu && post == VmView { sound: s.regs[x as int], ..s },
            Instr::AddIndex(x) => {
                let vx16 = s.regs[x as int] as u16;
                let carry: u8 = if s.index + vx16 > 65535 {
                    1
                } else {
                    0
                };
                r == ok_nu && post == VmView {
                    index: wrap_add16(s.index, vx16),
                    regs: s.regs.update(15, carry),
                    ..s
                }
            },
            Instr::FontIndex(x) => {
                let vx = s.regs[x as int];
                if vx > 15 {
                    r == Err::<DisplayState, VmError>(VmError::FontIndexOutOfRange) && post == pre
                } else {
                    r == ok_nu && post == VmView { index: (80 + 5 * vx) as u16, ..s }
                }
            },
            Instr::StoreBcd(x) => {
                let i = s.index as int;
                if i + 2 >= 4096 {
                    r == Err::<DisplayState, VmError>(VmError::MemoryOutOfBounds) && post == pre
                } else {
                    let vx = s.regs[x as int];
                    r == ok_nu && post == VmView {
                        mem: s.mem.update(i, bcd_hundreds(vx)).update(i + 1, bcd_tens(vx)).update(
                            i + 2,
                            bcd_ones(vx),
                        ),
                        ..s
                    }
                }
            },
            Instr::StoreRegs(x) => {
                let i = s.index as int;
                if i + x >= 4096 {
                    r == Err::<DisplayState, VmError>(VmError::MemoryOutOfBounds) && post == pre
                } else {
                    r == ok_nu && post == VmView {
                        mem: store_regs_mem(s.mem, s.regs, i, x as int),
                        ..s
                    }
                }
            },
            Instr::LoadRegs(x) => {
                let i = s.index as int;
                if i + x >= 4096 {
                    r == Err::<DisplayState, VmError>(VmError::MemoryOutOfBounds) && post == pre
                } else {
                    r == ok_nu && post == VmView {
                        regs: load_regs_regs(s.regs, s.mem, i, x as int),
                        ..s
                    }
                }
            },
            Instr::Invalid(raw) => r == Err::<DisplayState, VmError>(
                VmError::InvalidInstruction(raw),
            ) && post == pre,
        }
    }
}

} // verus!
