use vstd::prelude::*;

verus! {

/// One decoded instruction. In the pattern names below, `X` and `Y` are
/// register indices (always below 16), `N` a 4-bit immediate, `NN` an 8-bit
/// immediate and `NNN` a 12-bit address.
#[derive(Debug, Clone, Copy, PartialEq, Eq, Structural)]
pub enum Instr {
    /// 00E0: clear the framebuffer.
    ClearScreen,
    /// 00EE: pop a return address into the program counter.
    Ret,
    /// 1NNN: jump to NNN.
    Jump(u16),
    /// 2NNN: push the program counter, then jump to NNN.
    Call(u16),
    /// 3XNN: skip the next instruction if VX == NN.
    SkipEqImm(u8, u8),
    /// 4XNN: skip the next instruction if VX != NN.
    SkipNeImm(u8, u8),
    /// 5XY0: skip the next instruction if VX == VY.
    SkipEqReg(u8, u8),
    /// 6XNN: VX <- NN.
    SetImm(u8, u8),
    /// 7XNN: VX <- VX + NN, wrapping, flags untouched.
    AddImm(u8, u8),
    /// 8XY0: VX <- VY.
    Assign(u8, u8),
    /// 8XY1: VX <- VX | VY.
    Or(u8, u8),
    /// 8XY2: VX <- VX & VY.
    And(u8, u8),
    /// 8XY3: VX <- VX ^ VY.
    Xor(u8, u8),
    /// 8XY4: VX <- VX + VY wrapping; VF <- carry.
    AddReg(u8, u8),
    /// 8XY5: VX <- VX - VY wrapping.
    SubReg(u8, u8),
    /// 8XY6: VF <- low bit of VX; VX <- VX >> 1.
    ShiftRight(u8),
    /// 8XY7: VX <- VY - VX wrapping.
    SubFrom(u8, u8),
    /// 8XYE: VF <- high bit of VX; VX <- VX << 1, truncated to 8 bits.
    ShiftLeft(u8),
    /// 9XY0: skip the next instruction if VX != VY.
    SkipNeReg(u8, u8),
    /// ANNN: index register <- NNN.
    SetIndex(u16),
    /// BNNN: jump to NNN + V0.
    JumpOffset(u16),
    /// CXNN: VX <- random byte & NN.
    Random(u8, u8),
    /// DXYN: draw the N-row sprite at the index register to (VX % 64, VY % 32).
    Draw(u8, u8, u8),
    /// EX9E: skip the next instruction if key VX is pressed.
    SkipKeyPressed(u8),
    /// EXA1: skip the next instruction if key VX is not pressed.
    SkipKeyNotPressed(u8),
    /// FX07: VX <- delay timer.
    GetDelay(u8),
    /// FX0A: wait for a key press, then VX <- the lowest pressed key.
    WaitKey(u8),
    /// FX15: delay timer <- VX.
    SetDelay(u8),
    /// FX18: sound timer <- VX.
    SetSound(u8),
    /// FX1E: index register <- index register + VX wrapping; VF <- carry.
    AddIndex(u8),
    /// FX29: index register <- the address of the font glyph for VX.
    FontIndex(u8),
    /// FX33: write the decimal digits of VX at the index register.
    StoreBcd(u8),
    /// FX55: copy V0..=VX into memory at the index register.
    StoreRegs(u8),
    /// FX65: copy memory at the index register into V0..=VX.
    LoadRegs(u8),
    /// Any other pattern; carries the raw 16-bit word.
    Invalid(u16),
}

/// Decodes the two instruction bytes `b0 b1`, exactly as [`decode`] does.
pub open spec fn spec_decode(b0: u8, b1: u8) -> Instr {
    let op = b0 as int / 16;
    let x = (b0 as int % 16) as u8;
    let y = (b1 as int / 16) as u8;
    let n = (b1 as int % 16) as u8;
    let nn = b1;
    let nnn = ((b0 as int % 16) * 256 + b1 as int) as u16;
    let raw = (b0 as int * 256 + b1 as int) as u16;
    if op == 0x0 {
        if nnn == 0x0E0 {
            Instr::ClearScreen
        } else if nnn == 0x0EE {
            Instr::Ret
        } else {
            Instr::Invalid(raw)
        }
    } else if op == 0x1 {
        Instr::Jump(nnn)
    } else if op == 0x2 {
        Instr::Call(nnn)
    } else if op == 0x3 {
        Instr::SkipEqImm(x, nn)
    } else if op == 0x4 {
        Instr::SkipNeImm(x, nn)
    } else if op == 0x5 {
        if n == 0 {
            Instr::SkipEqReg(x, y)
        } else {
            Instr::Invalid(raw)
        }
    } else if op == 0x6 {
        Instr::SetImm(x, nn)
    } else if op == 0x7 {
        Instr::AddImm(x, nn)
    } else if op == 0x8 {
        if n == 0x0 {
            Instr::Assign(x, y)
        } else if n == 0x1 {
            Instr::Or(x, y)
        } else if n == 0x2 {
            Instr::And(x, y)
        } else if n == 0x3 {
            Instr::Xor(x, y)
        } else if n == 0x4 {
            Instr::AddReg(x, y)
        } else if n == 0x5 {
            Instr::SubReg(x, y)
        } else if n == 0x6 {
            Instr::ShiftRight(x)
        } else if n == 0x7 {
            Instr::SubFrom(x, y)
        } else if n == 0xE {
            Instr::ShiftLeft(x)
        } else {
            Instr::Invalid(raw)
        }
    } else if op == 0x9 {
        if n == 0 {
            Instr::SkipNeReg(x, y)
        } else {
            Instr::Invalid(raw)
        }
    } else if op == 0xA {
        Instr::SetIndex(nnn)
    } else if op == 0xB {
        Instr::JumpOffset(nnn)
    } else if op == 0xC {
        Instr::Random(x, nn)
    } else if op == 0xD {
        Instr::Draw(x, y, n)
    } else if op == 0xE {
        if nn == 0x9E {
            Instr::SkipKeyPressed(x)
        } else if nn == 0xA1 {
            Instr::SkipKeyNotPressed(x)
        } else {
            Instr::Invalid(raw)
        }
    } else {
        if nn == 0x07 {
            Instr::GetDelay(x)
        } else if nn == 0x0A {
            Instr::WaitKey(x)
        } else if nn == 0x15 {
            Instr::SetDelay(x)
        } else if nn == 0x18 {
            Instr::SetSound(x)
        } else if nn == 0x1E {
            Instr::AddIndex(x)
        } else if nn == 0x29 {
            Instr::FontIndex(x)
        } else if nn == 0x33 {
            Instr::StoreBcd(x)
        } else if nn == 0x55 {
            Instr::StoreRegs(x)
        } else if nn == 0x65 {
            Instr::LoadRegs(x)
        } else {
            Instr::Invalid(raw)
        }
    }
}

/// Every register index carried by a decoded instruction is below 16, a draw
/// count is below 16, and an address is below 4096.
pub proof fn lemma_decode_fields(b0: u8, b1: u8)
    ensures
        match spec_decode(b0, b1) {
            Instr::Jump(nnn) => nnn < 4096,
            Instr::Call(nnn) => nnn < 4096,
            Instr::SetIndex(nnn) => nnn < 4096,
            Instr::JumpOffset(nnn) => nnn < 4096,
            Instr::SkipEqImm(x, _) => x < 16,
            Instr::SkipNeImm(x, _) => x < 16,
            Instr::SkipEqReg(x, y) => x < 16 && y < 16,
            Instr::SetImm(x, _) => x < 16,
            Instr::AddImm(x, _) => x < 16,
            Instr::Assign(x, y) => x < 16 && y < 16,
            Instr::Or(x, y) => x < 16 && y < 16,
            Instr::And(x, y) => x < 16 && y < 16,
            Instr::Xor(x, y) => x < 16 && y < 16,
            Instr::AddReg(x, y) => x < 16 && y < 16,
            Instr::SubReg(x, y) => x < 16 && y < 16,
            Instr::ShiftRight(x) => x < 16,
            Instr::SubFrom(x, y) => x < 16 && y < 16,
            Instr::ShiftLeft(x) => x < 16,
            Instr::SkipNeReg(x, y) => x < 16 && y < 16,
            Instr::Random(x, _) => x < 16,
            Instr::Draw(x, y, n) => x < 16 && y < 16 && n < 16,
            Instr::SkipKeyPressed(x) => x < 16,
            Instr::SkipKeyNotPressed(x) => x < 16,
            Instr::GetDelay(x) => x < 16,
            Instr::WaitKey(x) => x < 16,
            Instr::SetDelay(x) => x < 16,
            Instr::SetSound(x) => x < 16,
            Instr::AddIndex(x) => x < 16,
            Instr::FontIndex(x) => x < 16,
            Instr::StoreBcd(x) => x < 16,
            Instr::StoreRegs(x) => x < 16,
            Instr::LoadRegs(x) => x < 16,
            _ => true,
        },
{
}

/// Splits the two instruction bytes `b0 b1` into the leading nibble and the
/// X / Y / N / NN / NNN fields and picks the instruction they name.
pub fn decode(b0: u8, b1: u8) -> (i: Instr)
    ensures
        i == spec_decode(b0, b1),
{
    let op: u8 = b0 / 16;
    let x: u8 = b0 % 16;
    let y: u8 = b1 / 16;
    let n: u8 = b1 % 16;
    let nn: u8 = b1;
    let nnn: u16 = (b0 as u16 % 16) * 256 + b1 as u16;
    let raw: u16 = b0 as u16 * 256 + b1 as u16;
    match op {
        0x0 => {
            if nnn == 0x0E0 {
                Instr::ClearScreen
            } else if nnn == 0x0EE {
                Instr::Ret
            } else {
                Instr::Invalid(raw)
            }
        },
        0x1 => Instr::Jump(nnn),
        0x2 => Instr::Call(nnn),
        0x3 => Instr::SkipEqImm(x, nn),
        0x4 => Instr::SkipNeImm(x, nn),
        0x5 => {
            if n == 0 {
                Instr::SkipEqReg(x, y)
            } else {
                Instr::Invalid(raw)
            }
        },
        0x6 => Instr::SetImm(x, nn),
        0x7 => Instr::AddImm(x, nn),
        0x8 => {
            match n {
                0x0 => Instr::Assign(x, y),
                0x1 => Instr::Or(x, y),
                0x2 => Instr::And(x, y),
                0x3 => Instr::Xor(x, y),
                0x4 => Instr::AddReg(x, y),
                0x5 => Instr::SubReg(x, y),
                0x6 => Instr::ShiftRight(x),
                0x7 => Instr::SubFrom(x, y),
                0xE => Instr::ShiftLeft(x),
                _ => Instr::Invalid(raw),
            }
        },
        0x9 => {
            if n == 0 {
                Instr::SkipNeReg(x, y)
            } else {
                Instr::Invalid(raw)
            }
        },
        0xA => Instr::SetIndex(nnn),
        0xB => Instr::JumpOffset(nnn),
        0xC => Instr::Random(x, nn),
        0xD => Instr::Draw(x, y, n),
        0xE => {
            if nn == 0x9E {
                Instr::SkipKeyPressed(x)
            } else if nn == 0xA1 {
                Instr::SkipKeyNotPressed(x)
            } else {
                Instr::Invalid(raw)
            }
        },
        _ => {
            match nn {
                0x07 => Instr::GetDelay(x),
                0x0A => Instr::WaitKey(x),
                0x15 => Instr::SetDelay(x),
                0x18 => Instr::SetSound(x),
                0x1E => Instr::AddIndex(x),
                0x29 => Instr::FontIndex(x),
                0x33 => Instr::StoreBcd(x),
                0x55 => Instr::StoreRegs(x),
                0x65 => Instr::LoadRegs(x),
                _ => Instr::Invalid(raw),
            }
        },
    }
}

} // verus!
