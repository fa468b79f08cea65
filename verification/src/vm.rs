use vstd::prelude::*;

use crate::font::Font;
use crate::font::font_byte;
use crate::isa::Instr;
use crate::isa::decode;
use crate::isa::lemma_decode_fields;
use crate::semantics::any_key;
use crate::semantics::bcd_hundreds;
use crate::semantics::bcd_ones;
use crate::semantics::bcd_tens;
use crate::semantics::blank_display;
use crate::semantics::bump;
use crate::semantics::draw_collision;
use crate::semantics::draw_display;
use crate::semantics::key_down;
use crate::semantics::lemma_lowest_key_from;
use crate::semantics::load_regs_regs;
use crate::semantics::load_view;
use crate::semantics::lowest_key;
use crate::semantics::skip_if;
use crate::semantics::sprite_pixel;
use crate::semantics::step_rel;
use crate::semantics::store_regs_mem;
use crate::semantics::upd_reg;
use crate::semantics::wrap_add16;
use crate::semantics::wrap_add8;
use crate::semantics::wrap_sub8;
use crate::state::DISPLAY_SIZE;
use crate::state::DisplayState;
use crate::state::MEMORY_SIZE;
use crate::state::PROGRAM_START;
use crate::state::VmError;
use crate::state::VmView;
use crate::state::view_wf;

verus! {

/// Relies on rand::random: it draws a value from the thread-local generator.
/// Nothing is promised of the value that comes back, so no clause is stated;
/// the random instruction's contract holds whatever byte is drawn.
pub assume_specification<T>[ rand::random::<T> ]() -> (r: T)
    where
        rand::distributions::Standard: rand::distributions::Distribution<T>,
;

/// The virtual machine: 4096 bytes of memory, a 64x32 framebuffer stored
/// row-major, the program counter, the index register, the call stack, the
/// two 60 Hz timers and the sixteen general-purpose registers. One instance
/// is created per program run and mutated only by [`Chip8::step`] and
/// [`Chip8::tick_timers`].
pub struct Chip8 {
    memory: Vec<u8>,
    display: Vec<bool>,
    pc: u16,
    index_reg: u16,
    stack: Vec<u16>,
    delay_timer: u8,
    sound_timer: u8,
    registers: Vec<u8>,
}

impl View for Chip8 {
    type V = VmView;

    closed spec fn view(&self) -> VmView {
        VmView {
            mem: self.memory@,
            display: self.display@,
            pc: self.pc,
            index: self.index_reg,
            stack: self.stack@,
            delay: self.delay_timer,
            sound: self.sound_timer,
            regs: self.registers@,
        }
    }
}

impl Chip8 {
    /// The fixed sizes of memory, framebuffer and register file hold.
    pub open spec fn wf(self) -> bool {
        view_wf(self@)
    }

    /// Loads a program and returns the freshly initialized machine, or
    /// rejects an image longer than the 3584 bytes of memory above the
    /// program start address. A program consists of 16-bit instructions, but
    /// bytes are taken, as a program file holds them.
    pub fn load_program(program: &[u8]) -> (r: Result<Chip8, VmError>)
        ensures
            r is Ok <==> program@.len() <= 3584,
            program@.len() > 3584 ==> r == Err::<Chip8, VmError>(VmError::ProgramTooLarge),
            r matches Ok(c) ==> c.wf() && c@ == load_view(program@),
    {
        if program.len() > MEMORY_SIZE - PROGRAM_START {
            return Err(VmError::ProgramTooLarge);
        }
        let mut memory: Vec<u8> = Vec::new();
        let mut a: usize = 0;
        while a < MEMORY_SIZE
            invariant
                a <= 4096,
                memory@.len() == a,
                forall|i: int| 0 <= i < a ==> memory@[i] == 0u8,
            decreases 4096 - a,
        {
            memory.push(0);
            a += 1;
        }
        let mut g: usize = 0;
        while g < 16
            invariant
                g <= 16,
                memory@.len() == 4096,
                forall|i: int| 80 <= i < 80 + 5 * g ==> memory@[i] == font_byte(
                    (i - 80) / 5,
                    (i - 80) % 5,
                ),
                forall|i: int| 0 <= i < 4096 && !(80 <= i < 80 + 5 * g) ==> memory@[i] == 0u8,
            decreases 16 - g,
        {
            let f = Font::glyph(g as u8);
            let mut row: usize = 0;
            while row < 5
                invariant
                    g < 16,
                    row <= 5,
                    memory@.len() == 4096,
                    f.0@ == crate::font::font_rows(g as int),
                    forall|i: int| 80 <= i < 80 + 5 * g + row ==> memory@[i] == font_byte(
                        (i - 80) / 5,
                        (i - 80) % 5,
                    ),
                    forall|i: int|
                        0 <= i < 4096 && !(80 <= i < 80 + 5 * g + row) ==> memory@[i] == 0u8,
                decreases 5 - row,
            {
                memory.set(80 + 5 * g + row, f.row(row));
                proof {
                    assert((5 * g + row) / 5 == g && (5 * g + row) % 5 == row) by (nonlinear_arith)
                        requires
                            0 <= row < 5,
                            0 <= g,
                    ;
                }
                row += 1;
            }
            g += 1;
        }
        let mut j: usize = 0;
        while j < program.len()
            invariant
                j <= program@.len() <= 3584,
                memory@.len() == 4096,
                forall|i: int| 80 <= i < 160 ==> memory@[i] == font_byte((i - 80) / 5, (i - 80) % 5),
                forall|i: int| 512 <= i < 512 + j ==> memory@[i] == program@[i - 512],
                forall|i: int|
                    0 <= i < 4096 && !(80 <= i < 160) && !(512 <= i < 512 + j) ==> memory@[i]
                        == 0u8,
            decreases program@.len() - j,
        {
            memory.set(PROGRAM_START + j, program[j]);
            j += 1;
        }
        let mut display: Vec<bool> = Vec::new();
        let mut p: usize = 0;
        while p < DISPLAY_SIZE
            invariant
                p <= 2048,
                display@.len() == p,
                forall|i: int| 0 <= i < p ==> !display@[i],
            decreases 2048 - p,
        {
            display.push(false);
            p += 1;
        }
        let mut registers: Vec<u8> = Vec::new();
        let mut v: usize = 0;
        while v < 16
            invariant
                v <= 16,
                registers@.len() == v,
                forall|i: int| 0 <= i < v ==> registers@[i] == 0u8,
            decreases 16 - v,
        {
            registers.push(0);
            v += 1;
        }
        let machine = Chip8 {
            memory,
            display,
            pc: 512,
            index_reg: 0,
            stack: Vec::new(),
            delay_timer: 0,
            sound_timer: 0,
            registers,
        };
        proof {
            assert(machine@.mem =~= load_view(program@).mem);
            assert(machine@.display =~= load_view(program@).display);
            assert(machine@.regs =~= load_view(program@).regs);
            assert(machine@.stack =~= load_view(program@).stack);
            assert(machine@ =~= load_view(program@));
        }
        Ok(machine)
    }

    /// Executes exactly one instruction: fetches the two bytes at the
    /// program counter, steps the counter over them, and then carries out the
    /// instruction on the machine and the given keypad snapshot. Returns
    /// whether the framebuffer changed, so a caller can skip redundant
    /// redraws, or the fatal condition that the program ran into; a fatal
    /// condition leaves the machine untouched. The exact effect of every
    /// opcode is [`step_rel`].
    pub fn step(&mut self, keypresses: [bool; 16]) -> (r: Result<DisplayState, VmError>)
        requires
            old(self).wf(),
        ensures
            final(self).wf(),
            step_rel(old(self)@, keypresses@, final(self)@, r),
            r is Err ==> final(self)@ == old(self)@,
    {
        if self.pc >= 4095 {
            return Err(VmError::MemoryOutOfBounds);
        }
        let ghost pre = self@;
        let b0 = self.memory[self.pc as usize];
        let b1 = self.memory[self.pc as usize + 1];
        self.pc = self.pc + 2;
        let instr = decode(b0, b1);
        proof {
            lemma_decode_fields(b0, b1);
            assert(self@ =~= bump(pre));
        }
        let ghost s = bump(pre);
        match instr {
            Instr::ClearScreen => {
                self.clear_display();
                proof {
                    assert(self@ =~= (VmView { display: blank_display(), ..s }));
                }
                Ok(DisplayState::Updated)
            },
            Instr::Ret => {
                match self.stack.pop() {
                    Some(addr) => {
                        self.pc = addr;
                        proof {
                            assert(self@ =~= (VmView {
                                pc: s.stack.last(),
                                stack: s.stack.drop_last(),
                                ..s
                            }));
                        }
                        Ok(DisplayState::NotUpdated)
                    },
                    None => {
                        self.pc = self.pc - 2;
                        proof {
                            assert(self@ =~= pre);
                        }
                        Err(VmError::EmptyStackReturn)
                    },
                }
            },
            Instr::Jump(nnn) => {
                self.pc = nnn;
                proof {
                    assert(self@ =~= (VmView { pc: nnn, ..s }));
                }
                Ok(DisplayState::NotUpdated)
            },
            Instr::Call(nnn) => {
                self.stack.push(self.pc);
                self.pc = nnn;
                proof {
                    assert(self@ =~= (VmView { pc: nnn, stack: s.stack.push(s.pc), ..s }));
                }
                Ok(DisplayState::NotUpdated)
            },
            Instr::SkipEqImm(x, nn) => {
                if self.registers[x as usize] == nn {
                    self.pc = self.pc + 2;
                }
                proof {
                    assert(self@ =~= skip_if(s, s.regs[x as int] == nn));
                }
                Ok(DisplayState::NotUpdated)
            },
            Instr::SkipNeImm(x, nn) => {
                if self.registers[x as usize] != nn {
                    self.pc = self.pc + 2;
                }
                proof {
                    assert(self@ =~= skip_if(s, s.regs[x as int] != nn));
                }
                Ok(DisplayState::NotUpdated)
            },
            Instr::SkipEqReg(x, y) => {
                if self.registers[x as usize] == self.registers[y as usize] {
                    self.pc = self.pc + 2;
                }
                proof {
                    assert(self@ =~= skip_if(s, s.regs[x as int] == s.regs[y as int]));
                }
                Ok(DisplayState::NotUpdated)
            },
            Instr::SetImm(x, nn) => {
                self.registers.set(x as usize, nn);
                proof {
                    assert(self@ =~= upd_reg(s, x, nn));
                }
                Ok(DisplayState::NotUpdated)
            },
            Instr::AddImm(x, nn) => {
                let vx = self.registers[x as usize];
                let sum = ((vx as u16 + nn as u16) % 256) as u8;
                self.registers.set(x as usize, sum);
                proof {
                    assert(sum == wrap_add8(s.regs[x as int], nn));
                    assert(self@ =~= upd_reg(s, x, sum));
                }
                Ok(DisplayState::NotUpdated)
            },
            Instr::Assign(x, y) => {
                let vy = self.registers[y as usize];
                self.registers.set(x as usize, vy);
                proof {
                    assert(self@ =~= upd_reg(s, x, s.regs[y as int]));
                }
                Ok(DisplayState::NotUpdated)
            },
            Instr::Or(x, y) => {
                let vx = self.registers[x as usize];
                let vy = self.registers[y as usize];
                self.registers.set(x as usize, vx | vy);
                proof {
                    assert(self@ =~= upd_reg(s, x, s.regs[x as int] | s.regs[y as int]));
                }
                Ok(DisplayState::NotUpdated)
            },
            Instr::And(x, y) => {
                let vx = self.registers[x as usize];
                let vy = self.registers[y as usize];
                self.registers.set(x as usize, vx & vy);
                proof {
                    assert(self@ =~= upd_reg(s, x, s.regs[x as int] & s.regs[y as int]));
                }
                Ok(DisplayState::NotUpdated)
            },
            Instr::Xor(x, y) => {
                let vx = self.registers[x as usize];
                let vy = self.registers[y as usize];
                self.registers.set(x as usize, vx ^ vy);
                proof {
                    assert(self@ =~= upd_reg(s, x, s.regs[x as int] ^ s.regs[y as int]));
                }
                Ok(DisplayState::NotUpdated)
            },
            Instr::AddReg(x, y) => {
                let vx = self.registers[x as usize];
                let vy = self.registers[y as usize];
                let sum16 = vx as u16 + vy as u16;
                let sum = (sum16 % 256) as u8;
                let carry: u8 = if sum16 > 255 {
                    1
                } else {
                    0
                };
                self.registers.set(x as usize, sum);
                self.registers.set(15, carry);
                proof {
                    assert(sum == wrap_add8(s.regs[x as int], s.regs[y as int]));
                    assert(self@ =~= upd_reg(upd_reg(s, x, sum), 15, carry));
                }
                Ok(DisplayState::NotUpdated)
            },
            Instr::SubReg(x, y) => {
                let vx = self.registers[x as usize];
                let vy = self.registers[y as usize];
                let diff = ((vx as u16 + 256 - vy as u16) % 256) as u8;
                self.registers.set(x as usize, diff);
                proof {
                    assert(diff == wrap_sub8(s.regs[x as int], s.regs[y as int]));
                    assert(self@ =~= upd_reg(s, x, diff));
                }
                Ok(DisplayState::NotUpdated)
            },
            Instr::ShiftRight(x) => {
                let vx = self.registers[x as usize];
                let low = vx % 2;
                self.registers.set(x as usize, vx / 2);
                self.registers.set(15, low);
                proof {
                    assert(self@ =~= upd_reg(upd_reg(s, x, (vx as int / 2) as u8), 15, low));
                }
                Ok(DisplayState::NotUpdated)
            },
            Instr::SubFrom(x, y) => {
                let vx = self.registers[x as usize];
                let vy = self.registers[y as usize];
                let diff = ((vy as u16 + 256 - vx as u16) % 256) as u8;
                self.registers.set(x as usize, diff);
                proof {
                    assert(diff == wrap_sub8(s.regs[y as int], s.regs[x as int]));
                    assert(self@ =~= upd_reg(s, x, diff));
                }
                Ok(DisplayState::NotUpdated)
            },
            Instr::ShiftLeft(x) => {
                let vx = self.registers[x as usize];
                let high = vx / 128;
                let shifted = ((vx as u16 * 2) % 256) as u8;
                self.registers.set(x as usize, shifted);
                self.registers.set(15, high);
                proof {
                    assert(self@ =~= upd_reg(upd_reg(s, x, shifted), 15, high));
                }
                Ok(DisplayState::NotUpdated)
            },
            Instr::SkipNeReg(x, y) => {
                if self.registers[x as usize] != self.registers[y as usize] {
                    self.pc = self.pc + 2;
                }
                proof {
                    assert(self@ =~= skip_if(s, s.regs[x as int] != s.regs[y as int]));
                }
                Ok(DisplayState::NotUpdated)
            },
            Instr::SetIndex(nnn) => {
                self.index_reg = nnn;
                proof {
                    assert(self@ =~= (VmView { index: nnn, ..s }));
                }
                Ok(DisplayState::NotUpdated)
            },
            Instr::JumpOffset(nnn) => {
                self.pc = nnn + self.registers[0] as u16;
                proof {
                    assert(self@ =~= (VmView { pc: (nnn + s.regs[0]) as u16, ..s }));
                }
                Ok(DisplayState::NotUpdated)
            },
            Instr::Random(x, nn) => {
                let b = rand::random::<u8>();
                self.registers.set(x as usize, b & nn);
                proof {
                    assert(self@ =~= upd_reg(s, x, b & nn));
                }
                Ok(DisplayState::NotUpdated)
            },
            Instr::Draw(x, y, n) => {
                if self.index_reg as usize + n as usize > 4096 {
                    self.pc = self.pc - 2;
                    proof {
                        assert(self@ =~= pre);
                    }
                    Err(VmError::MemoryOutOfBounds)
                } else {
                    self.draw_sprite(x, y, n);
                    Ok(DisplayState::Updated)
                }
            },
            Instr::SkipKeyPressed(x) => {
                let vx = self.registers[x as usize];
                let pressed = vx < 16 && keypresses[vx as usize];
                if pressed {
                    self.pc = self.pc + 2;
                }
                proof {
                    assert(pressed == key_down(keypresses@, s.regs[x as int]));
                    assert(self@ =~= skip_if(s, key_down(keypresses@, s.regs[x as int])));
                }
                Ok(DisplayState::NotUpdated)
            },
            Instr::SkipKeyNotPressed(x) => {
                let vx = self.registers[x as usize];
                let pressed = vx < 16 && keypresses[vx as usize];
                if !pressed {
                    self.pc = self.pc + 2;
                }
                proof {
                    assert(pressed == key_down(keypresses@, s.regs[x as int]));
                    assert(self@ =~= skip_if(s, !key_down(keypresses@, s.regs[x as int])));
                }
                Ok(DisplayState::NotUpdated)
            },
            Instr::GetDelay(x) => {
                let t = self.delay_timer;
                self.registers.set(x as usize, t);
                proof {
                    assert(self@ =~= upd_reg(s, x, s.delay));
                }
                Ok(DisplayState::NotUpdated)
            },
            Instr::WaitKey(x) => {
                match first_pressed(&keypresses) {
                    Some(k) => {
                        self.registers.set(x as usize, k);
                        proof {
                            assert(self@ =~= upd_reg(s, x, lowest_key(keypresses@, 0) as u8));
                        }
                    },
                    None => {
                        self.pc = self.pc - 2;
                        proof {
                            assert(self@ =~= pre);
                        }
                    },
                }
                Ok(DisplayState::NotUpdated)
            },
            Instr::SetDelay(x) => {
                self.delay_timer = self.registers[x as usize];
                proof {
                    assert(self@ =~= (VmView { delay: s.regs[x as int], ..s }));
                }
                Ok(DisplayState::NotUpdated)
            },
            Instr::SetSound(x) => {
                self.sound_timer = self.registers[x as usize];
                proof {
                    assert(self@ =~= (VmView { sound: s.regs[x as int], ..s }));
                }
                Ok(DisplayState::NotUpdated)
            },
            Instr::AddIndex(x) => {
                let vx16 = self.registers[x as usize] as u16;
                let sum32 = self.index_reg as u32 + vx16 as u32;
                let carry: u8 = if sum32 > 65535 {
                    1
                } else {
                    0
                };
                self.index_reg = (sum32 % 65536) as u16;
                self.registers.set(15, carry);
                proof {
                    assert(self@.index == wrap_add16(s.index, s.regs[x as int] as u16));
                    assert(self@ =~= (VmView {
                        index: wrap_add16(s.index, s.regs[x as int] as u16),
                        regs: s.regs.update(15, carry),
                        ..s
                    }));
                }
                Ok(DisplayState::NotUpdated)
            },
            Instr::FontIndex(x) => {
                let vx = self.registers[x as usize];
                if vx > 15 {
                    self.pc = self.pc - 2;
                    proof {
                        assert(self@ =~= pre);
                    }
                    Err(VmError::FontIndexOutOfRange)
                } else {
                    self.index_reg = 80 + 5 * vx as u16;
                    proof {
                        assert(self@ =~= (VmView { index: (80 + 5 * s.regs[x as int]) as u16, ..s }));
                    }
                    Ok(DisplayState::NotUpdated)
                }
            },
            Instr::StoreBcd(x) => {
                let i = self.index_reg as usize;
                if i + 2 >= 4096 {
                    self.pc = self.pc - 2;
                    proof {
                        assert(self@ =~= pre);
                    }
                    Err(VmError::MemoryOutOfBounds)
                } else {
                    let vx = self.registers[x as usize];
                    self.memory.set(i, vx / 100);
                    self.memory.set(i + 1, (vx / 10) % 10);
                    self.memory.set(i + 2, vx % 10);
                    proof {
                        assert(self@ =~= (VmView {
                            mem: s.mem.update(i as int, bcd_hundreds(s.regs[x as int])).update(
                                i as int + 1,
                                bcd_tens(s.regs[x as int]),
                            ).update(i as int + 2, bcd_ones(s.regs[x as int])),
                            ..s
                        }));
                    }
                    Ok(DisplayState::NotUpdated)
                }
            },
            Instr::StoreRegs(x) => {
                if self.index_reg as usize + x as usize >= 4096 {
                    self.pc = self.pc - 2;
                    proof {
                        assert(self@ =~= pre);
                    }
                    Err(VmError::MemoryOutOfBounds)
                } else {
                    self.store_regs(x);
                    proof {
                        assert(self@ =~= (VmView {
                            mem: store_regs_mem(s.mem, s.regs, s.index as int, x as int),
                            ..s
                        }));
                    }
                    Ok(DisplayState::NotUpdated)
                }
            },
            Instr::LoadRegs(x) => {
                if self.index_reg as usize + x as usize >= 4096 {
                    self.pc = self.pc - 2;
                    proof {
                        assert(self@ =~= pre);
                    }
                    Err(VmError::MemoryOutOfBounds)
                } else {
                    self.load_regs(x);
                    proof {
                        assert(self@ =~= (VmView {
                            regs: load_regs_regs(s.regs, s.mem, s.index as int, x as int),
                            ..s
                        }));
                    }
                    Ok(DisplayState::NotUpdated)
                }
            },
            Instr::Invalid(raw) => {
                self.pc = self.pc - 2;
                proof {
                    assert(self@ =~= pre);
                }
                Err(VmError::InvalidInstruction(raw))
            },
        }
    }

    /// One 60 Hz timer tick: each timer that is nonzero goes down by one, and
    /// a timer at zero stays there. Nothing else changes. The caller is in
    /// charge of invoking this at 60 Hz of wall-clock time, independently of
    /// how fast instructions are stepped.
    pub fn tick_timers(&mut self)
        ensures
            final(self)@ == (VmView {
                delay: if old(self)@.delay > 0 {
                    (old(self)@.delay - 1) as u8
                } else {
                    0u8
                },
                sound: if old(self)@.sound > 0 {
                    (old(self)@.sound - 1) as u8
                } else {
                    0u8
                },
                ..old(self)@
            }),
    {
        if self.delay_timer > 0 {
            self.delay_timer = self.delay_timer - 1;
        }
        if self.sound_timer > 0 {
            self.sound_timer = self.sound_timer - 1;
        }
    }

    /// Whether the beep should be sounding: exactly when the sound timer is
    /// nonzero.
    pub fn is_sound_on(&self) -> (on: bool)
        ensures
            on == (self@.sound > 0),
    {
        self.sound_timer > 0
    }

    /// The framebuffer, row-major: pixel `(y, x)` at index `y * 64 + x`.
    pub fn display(&self) -> (d: &Vec<bool>)
        ensures
            d@ == self@.display,
    {
        &self.display
    }

    /// One framebuffer pixel.
    pub fn pixel(&self, y: usize, x: usize) -> (on: bool)
        requires
            self.wf(),
            y < 32,
            x < 64,
        ensures
            on == self@.display[y as int * 64 + x as int],
    {
        self.display[y * 64 + x]
    }

    /// The program counter.
    pub fn pc(&self) -> (pc: u16)
        ensures
            pc == self@.pc,
    {
        self.pc
    }

    /// The index register.
    pub fn index_reg(&self) -> (i: u16)
        ensures
            i == self@.index,
    {
        self.index_reg
    }

    /// General-purpose register `i`.
    pub fn register(&self, i: usize) -> (v: u8)
        requires
            self.wf(),
            i < 16,
        ensures
            v == self@.regs[i as int],
    {
        self.registers[i]
    }

    /// One byte of memory.
    pub fn mem_byte(&self, addr: usize) -> (b: u8)
        requires
            self.wf(),
            addr < 4096,
        ensures
            b == self@.mem[addr as int],
    {
        self.memory[addr]
    }

    /// The delay timer's current value.
    pub fn delay_timer(&self) -> (t: u8)
        ensures
            t == self@.delay,
    {
        self.delay_timer
    }

    /// The sound timer's current value.
    pub fn sound_timer(&self) -> (t: u8)
        ensures
            t == self@.sound,
    {
        self.sound_timer
    }

    /// Turns every pixel off.
    fn clear_display(&mut self)
        requires
            old(self).wf(),
        ensures
            final(self)@ == (VmView { display: blank_display(), ..old(self)@ }),
    {
        let mut p: usize = 0;
        while p < DISPLAY_SIZE
            invariant
                p <= 2048,
                self@ == (VmView { display: self@.display, ..old(self)@ }),
                self@.display.len() == 2048,
                forall|i: int| 0 <= i < p ==> !self@.display[i],
            decreases 2048 - p,
        {
            self.display.set(p, false);
            p += 1;
        }
        proof {
            assert(self@.display =~= blank_display());
            assert(self@ =~= (VmView { display: blank_display(), ..old(self)@ }));
        }
    }

    /// Copies registers `V0..=VX` into memory at the index register.
    fn store_regs(&mut self, x: u8)
        requires
            old(self).wf(),
            x < 16,
            (old(self)@.index as int + x as int) < 4096,
        ensures
            final(self)@ == (VmView {
                mem: store_regs_mem(
                    old(self)@.mem,
                    old(self)@.regs,
                    old(self)@.index as int,
                    x as int,
                ),
                ..old(self)@
            }),
    {
        let i = self.index_reg as usize;
        let mut k: usize = 0;
        while k <= x as usize
            invariant
                old(self).wf(),
                x < 16,
                k <= x as usize + 1,
                i == old(self)@.index as int,
                i + x < 4096,
                self@ == (VmView { mem: self@.mem, ..old(self)@ }),
                self@.mem.len() == 4096,
                forall|a: int| i <= a < i + k ==> self@.mem[a] == old(self)@.regs[a - i],
                forall|a: int|
                    0 <= a < 4096 && !(i <= a < i + k) ==> self@.mem[a] == old(self)@.mem[a],
            decreases x as usize + 1 - k,
        {
            let v = self.registers[k];
            self.memory.set(i + k, v);
            k += 1;
        }
        proof {
            assert(self@.mem =~= store_regs_mem(
                old(self)@.mem,
                old(self)@.regs,
                old(self)@.index as int,
                x as int,
            ));
            assert(self@ =~= (VmView {
                mem: store_regs_mem(
                    old(self)@.mem,
                    old(self)@.regs,
                    old(self)@.index as int,
                    x as int,
                ),
                ..old(self)@
            }));
        }
    }

    /// Copies memory at the index register into registers `V0..=VX`.
    fn load_regs(&mut self, x: u8)
        requires
            old(self).wf(),
            x < 16,
            (old(self)@.index as int + x as int) < 4096,
        ensures
            final(self)@ == (VmView {
                regs: load_regs_regs(
                    old(self)@.regs,
                    old(self)@.mem,
                    old(self)@.index as int,
                    x as int,
                ),
                ..old(self)@
            }),
    {
        let i = self.index_reg as usize;
        let mut k: usize = 0;
        while k <= x as usize
            invariant
                old(self).wf(),
                x < 16,
                k <= x as usize + 1,
                i == old(self)@.index as int,
                i + x < 4096,
                self@ == (VmView { regs: self@.regs, ..old(self)@ }),
                self@.regs.len() == 16,
                forall|j: int| 0 <= j < k ==> self@.regs[j] == old(self)@.mem[i + j],
                forall|j: int| k <= j < 16 ==> self@.regs[j] == old(self)@.regs[j],
            decreases x as usize + 1 - k,
        {
            let b = self.memory[i + k];
            self.registers.set(k, b);
            k += 1;
        }
        proof {
            assert(self@.regs =~= load_regs_regs(
                old(self)@.regs,
                old(self)@.mem,
                old(self)@.index as int,
                x as int,
            ));
            assert(self@ =~= (VmView {
                regs: load_regs_regs(
                    old(self)@.regs,
                    old(self)@.mem,
                    old(self)@.index as int,
                    x as int,
                ),
                ..old(self)@
            }));
        }
    }
    /// Draws the `n`-row sprite stored at the index register to the screen
    /// position `(VX % 64, VY % 32)`, XOR-compositing it onto the
    /// framebuffer; VF records whether any pixel was turned off. Sprite bits
    /// past the right or bottom screen edge are clipped, not wrapped.
    fn draw_sprite(&mut self, x: u8, y: u8, n: u8)
        requires
            old(self).wf(),
            x < 16,
            y < 16,
            n < 16,
            (old(self)@.index as int + n as int) <= 4096,
        ensures
            ({
                let s = old(self)@;
                let i = s.index as int;
                let x0 = s.regs[x as int] as int % 64;
                let y0 = s.regs[y as int] as int % 32;
                let coll = draw_collision(s.display, s.mem, i, n as int, x0, y0);
                final(self)@ == (VmView {
                    display: draw_display(s.display, s.mem, i, n as int, x0, y0),
                    regs: s.regs.update(15, if coll { 1u8 } else { 0u8 }),
                    ..s
                })
            }),
    {
        let ghost s = self@;
        let i = self.index_reg as usize;
        let x0 = (self.registers[x as usize] % 64) as usize;
        let y0 = (self.registers[y as usize] % 32) as usize;
        let ghost gi = i as int;
        let ghost gx0 = x0 as int;
        let ghost gy0 = y0 as int;
        self.registers.set(15, 0);
        proof {
            assert(!partial_collision(s.display, s.mem, gi, gx0, gy0, 0, 0));
            assert(self@.display =~= partial_display(s.display, s.mem, gi, gx0, gy0, 0, 0));
            assert(self@.regs =~= s.regs.update(15, 0u8));
            assert(self@ =~= (VmView {
                display: partial_display(s.display, s.mem, gi, gx0, gy0, 0, 0),
                regs: s.regs.update(
                    15,
                    if partial_collision(s.display, s.mem, gi, gx0, gy0, 0, 0) {
                        1u8
                    } else {
                        0u8
                    },
                ),
                ..s
            }));
        }
        let mut rr: usize = 0;
        while rr < n as usize
            invariant
                rr <= n as usize,
                x < 16,
                y < 16,
                n < 16,
                view_wf(s),
                i == gi,
                x0 == gx0,
                y0 == gy0,
                gi == s.index as int,
                (gi + n as int) <= 4096,
                gx0 == s.regs[x as int] as int % 64,
                gy0 == s.regs[y as int] as int % 32,
                0 <= gx0 < 64,
                0 <= gy0 < 32,
                self@ == (VmView {
                    display: partial_display(s.display, s.mem, gi, gx0, gy0, rr as int, 0),
                    regs: s.regs.update(
                        15,
                        if partial_collision(s.display, s.mem, gi, gx0, gy0, rr as int, 0) {
                            1u8
                        } else {
                            0u8
                        },
                    ),
                    ..s
                }),
            decreases n as usize - rr,
        {
            let ghost grr = rr as int;
            if y0 + rr < 32 {
                let byte = self.memory[i + rr];
                proof {
                    assert(byte == s.mem[gi + grr]);
                }
                let mut cc: usize = 0;
                while cc < 8
                    invariant
                        cc <= 8,
                        rr < n as usize,
                        grr == rr as int,
                        x < 16,
                        y < 16,
                        n < 16,
                        view_wf(s),
                        i == gi,
                        x0 == gx0,
                        y0 == gy0,
                        gi == s.index as int,
                        (gi + n as int) <= 4096,
                        gx0 == s.regs[x as int] as int % 64,
                        gy0 == s.regs[y as int] as int % 32,
                        0 <= gx0 < 64,
                        0 <= gy0 < 32,
                        gy0 + grr < 32,
                        byte == s.mem[gi + grr],
                        self@ == (VmView {
                            display: partial_display(
                                s.display,
                                s.mem,
                                gi,
                                gx0,
                                gy0,
                                grr,
                                cc as int,
                            ),
                            regs: s.regs.update(
                                15,
                                if partial_collision(
                                    s.display,
                                    s.mem,
                                    gi,
                                    gx0,
                                    gy0,
                                    grr,
                                    cc as int,
                                ) {
                                    1u8
                                } else {
                                    0u8
                                },
                            ),
                            ..s
                        }),
                    decreases 8 - cc,
                {
                    let ghost gcc = cc as int;
                    let ghost dpre = self@.display;
                    let ghost collp = partial_collision(s.display, s.mem, gi, gx0, gy0, grr, gcc);
                    if x0 + cc < 64 {
                        let sh: u8 = (7 - cc) as u8;
                        let bit = ((byte >> sh) & 1) == 1;
                        let p0 = (y0 + rr) * 64 + (x0 + cc);
                        proof {
                            assert(p0 < 2048);
                            assert(p0 as int / 64 == gy0 + grr && p0 as int % 64 == gx0 + gcc)
                                by (nonlinear_arith)
                                requires
                                    p0 as int == (gy0 + grr) * 64 + (gx0 + gcc),
                                    0 <= gx0 + gcc < 64,
                                    0 <= gy0 + grr,
                            ;
                            assert(bit == sprite_pixel(s.mem[gi + grr], gcc));
                            assert(!hits_before(s.mem, gi, gx0, gy0, p0 as int, grr, gcc));
                            assert(hits_before(s.mem, gi, gx0, gy0, p0 as int, grr, gcc + 1)
                                == bit);
                            assert(dpre[p0 as int] == s.display[p0 as int]);
                        }
                        if bit {
                            if self.display[p0] {
                                self.display.set(p0, false);
                                self.registers.set(15, 1);
                            } else {
                                self.display.set(p0, true);
                            }
                        }
                        proof {
                            assert forall|p: int|
                                0 <= p < 2048 && p != p0 as int implies hits_before(
                                s.mem,
                                gi,
                                gx0,
                                gy0,
                                p,
                                grr,
                                gcc + 1,
                            ) == hits_before(s.mem, gi, gx0, gy0, p, grr, gcc) by {
                                if p / 64 - gy0 == grr && p % 64 - gx0 == gcc {
                                    assert(p == (p / 64) * 64 + p % 64);
                                    assert(false);
                                }
                            }
                            assert(self@.display =~= partial_display(
                                s.display,
                                s.mem,
                                gi,
                                gx0,
                                gy0,
                                grr,
                                gcc + 1,
                            ));
                            let collp1 = partial_collision(
                                s.display,
                                s.mem,
                                gi,
                                gx0,
                                gy0,
                                grr,
                                gcc + 1,
                            );
                            if bit && s.display[p0 as int] {
                                assert(hits_before(
                                    s.mem,
                                    gi,
                                    gx0,
                                    gy0,
                                    p0 as int,
                                    grr,
                                    gcc + 1,
                                ));
                                assert(collp1);
                                assert(self@.regs =~= s.regs.update(
                                    15,
                                    if collp1 {
                                        1u8
                                    } else {
                                        0u8
                                    },
                                ));
                            } else {
                                if collp {
                                    let w = choose|p: int|
                                        0 <= p < 2048 && hits_before(
                                            s.mem,
                                            gi,
                                            gx0,
                                            gy0,
                                            p,
                                            grr,
                                            gcc,
                                        ) && s.display[p];
                                    assert(hits_before(s.mem, gi, gx0, gy0, w, grr, gcc + 1));
                                    assert(collp1);
                                }
                                if collp1 {
                                    let w = choose|p: int|
                                        0 <= p < 2048 && hits_before(
                                            s.mem,
                                            gi,
                                            gx0,
                                            gy0,
                                            p,
                                            grr,
                                            gcc + 1,
                                        ) && s.display[p];
                                    assert(w != p0 as int);
                                    assert(hits_before(s.mem, gi, gx0, gy0, w, grr, gcc));
                                    assert(collp);
                                }
                                assert(collp1 == collp);
                                assert(self@.regs =~= s.regs.update(
                                    15,
                                    if collp1 {
                                        1u8
                                    } else {
                                        0u8
                                    },
                                ));
                            }
                            assert(self@ =~= (VmView {
                                display: partial_display(
                                    s.display,
                                    s.mem,
                                    gi,
                                    gx0,
                                    gy0,
                                    grr,
                                    gcc + 1,
                                ),
                                regs: s.regs.update(
                                    15,
                                    if collp1 {
                                        1u8
                                    } else {
                                        0u8
                                    },
                                ),
                                ..s
                            }));
                        }
                    } else {
                        proof {
                            assert forall|p: int| 0 <= p < 2048 implies hits_before(
                                s.mem,
                                gi,
                                gx0,
                                gy0,
                                p,
                                grr,
                                gcc + 1,
                            ) == hits_before(s.mem, gi, gx0, gy0, p, grr, gcc) by {
                                if p / 64 - gy0 == grr && p % 64 - gx0 == gcc {
                                    assert(p % 64 < 64);
                                    assert(false);
                                }
                            }
                            assert(self@.display =~= partial_display(
                                s.display,
                                s.mem,
                                gi,
                                gx0,
                                gy0,
                                grr,
                                gcc + 1,
                            ));
                            lemma_collision_eq(
                                s.display,
                                s.mem,
                                gi,
                                gx0,
                                gy0,
                                grr,
                                gcc + 1,
                                grr,
                                gcc,
                            );
                        }
                    }
                    cc += 1;
                }
                proof {
                    assert forall|p: int| 0 <= p < 2048 implies hits_before(
                        s.mem,
                        gi,
                        gx0,
                        gy0,
                        p,
                        grr + 1,
                        0,
                    ) == hits_before(s.mem, gi, gx0, gy0, p, grr, 8) by {}
                    assert(partial_display(s.display, s.mem, gi, gx0, gy0, grr + 1, 0)
                        =~= partial_display(s.display, s.mem, gi, gx0, gy0, grr, 8));
                    lemma_collision_eq(s.display, s.mem, gi, gx0, gy0, grr + 1, 0, grr, 8);
                }
            } else {
                proof {
                    assert forall|p: int| 0 <= p < 2048 implies hits_before(
                        s.mem,
                        gi,
                        gx0,
                        gy0,
                        p,
                        grr + 1,
                        0,
                    ) == hits_before(s.mem, gi, gx0, gy0, p, grr, 0) by {
                        assert(p / 64 < 32);
                    }
                    assert(partial_display(s.display, s.mem, gi, gx0, gy0, grr + 1, 0)
                        =~= partial_display(s.display, s.mem, gi, gx0, gy0, grr, 0));
                    lemma_collision_eq(s.display, s.mem, gi, gx0, gy0, grr + 1, 0, grr, 0);
                }
            }
            rr += 1;
        }
        proof {
            let gn = n as int;
            assert forall|p: int| 0 <= p < 2048 implies hits_before(
                s.mem,
                gi,
                gx0,
                gy0,
                p,
                gn,
                0,
            ) == crate::semantics::sprite_hits(s.mem, gi, gn, gx0, gy0, p) by {}
            assert(partial_display(s.display, s.mem, gi, gx0, gy0, gn, 0) =~= draw_display(
                s.display,
                s.mem,
                gi,
                gn,
                gx0,
                gy0,
            ));
            lemma_collision_final(s.display, s.mem, gi, gx0, gy0, gn);
            let coll = draw_collision(s.display, s.mem, gi, gn, gx0, gy0);
            assert(self@ =~= (VmView {
                display: draw_display(s.display, s.mem, gi, gn, gx0, gy0),
                regs: s.regs.update(
                    15,
                    if coll {
                        1u8
                    } else {
                        0u8
                    },
                ),
                ..s
            }));
        }
    }
}

/// Whether framebuffer index `p` has been touched by a lit sprite bit after
/// the draw loop has fully processed sprite rows `0..rr` and, within row
/// `rr`, columns `0..cc`.
spec fn hits_before(mem: Seq<u8>, i: int, x0: int, y0: int, p: int, rr: int, cc: int) -> bool {
    let yy = p / 64;
    let xx = p % 64;
    &&& x0 <= xx < x0 + 8
    &&& y0 <= yy
    &&& (yy - y0 < rr || (yy - y0 == rr && xx - x0 < cc))
    &&& sprite_pixel(mem[i + (yy - y0)], xx - x0)
}

/// The framebuffer in the middle of the draw loop: pixels touched so far are
/// toggled, the rest still hold their old state.
spec fn partial_display(
    disp: Seq<bool>,
    mem: Seq<u8>,
    i: int,
    x0: int,
    y0: int,
    rr: int,
    cc: int,
) -> Seq<bool> {
    Seq::new(
        2048,
        |p: int|
            if hits_before(mem, i, x0, y0, p, rr, cc) {
                !disp[p]
            } else {
                disp[p]
            },
    )
}

/// Whether a collision has been seen by the middle of the draw loop.
spec fn partial_collision(
    disp: Seq<bool>,
    mem: Seq<u8>,
    i: int,
    x0: int,
    y0: int,
    rr: int,
    cc: int,
) -> bool {
    exists|p: int| 0 <= p < 2048 && hits_before(mem, i, x0, y0, p, rr, cc) && disp[p]
}

/// Two cuts of the draw loop that touch the same pixels see the same
/// collisions.
proof fn lemma_collision_eq(
    disp: Seq<bool>,
    mem: Seq<u8>,
    i: int,
    x0: int,
    y0: int,
    rr1: int,
    cc1: int,
    rr2: int,
    cc2: int,
)
    requires
        forall|p: int|
            0 <= p < 2048 ==> hits_before(mem, i, x0, y0, p, rr1, cc1) == hits_before(
                mem,
                i,
                x0,
                y0,
                p,
                rr2,
                cc2,
            ),
    ensures
        partial_collision(disp, mem, i, x0, y0, rr1, cc1) == partial_collision(
            disp,
            mem,
            i,
            x0,
            y0,
            rr2,
            cc2,
        ),
{
    if partial_collision(disp, mem, i, x0, y0, rr1, cc1) {
        let w = choose|p: int| 0 <= p < 2048 && hits_before(mem, i, x0, y0, p, rr1, cc1) && disp[p];
        assert(hits_before(mem, i, x0, y0, w, rr2, cc2));
        assert(partial_collision(disp, mem, i, x0, y0, rr2, cc2));
    }
    if partial_collision(disp, mem, i, x0, y0, rr2, cc2) {
        let w = choose|p: int| 0 <= p < 2048 && hits_before(mem, i, x0, y0, p, rr2, cc2) && disp[p];
        assert(hits_before(mem, i, x0, y0, w, rr1, cc1));
        assert(partial_collision(disp, mem, i, x0, y0, rr1, cc1));
    }
}

/// After the last sprite row, the loop's notion of a collision agrees with
/// [`draw_collision`].
proof fn lemma_collision_final(disp: Seq<bool>, mem: Seq<u8>, i: int, x0: int, y0: int, n: int)
    ensures
        partial_collision(disp, mem, i, x0, y0, n, 0) == draw_collision(disp, mem, i, n, x0, y0),
{
    if partial_collision(disp, mem, i, x0, y0, n, 0) {
        let w = choose|p: int| 0 <= p < 2048 && hits_before(mem, i, x0, y0, p, n, 0) && disp[p];
        assert(crate::semantics::sprite_hits(mem, i, n, x0, y0, w));
        assert(draw_collision(disp, mem, i, n, x0, y0));
    }
    if draw_collision(disp, mem, i, n, x0, y0) {
        let w = choose|p: int|
            0 <= p < 2048 && crate::semantics::sprite_hits(mem, i, n, x0, y0, p) && disp[p];
        assert(hits_before(mem, i, x0, y0, w, n, 0));
        assert(partial_collision(disp, mem, i, x0, y0, n, 0));
    }
}

/// The lowest-indexed pressed key in the snapshot, or `None` when no key is
/// down.
fn first_pressed(keys: &[bool; 16]) -> (r: Option<u8>)
    ensures
        any_key(keys@) ==> r == Some(lowest_key(keys@, 0) as u8),
        !any_key(keys@) ==> r is None,
{
    let mut k: usize = 0;
    while k < 16
        invariant
            k <= 16,
            forall|j: int| 0 <= j < k ==> !keys@[j],
        decreases 16 - k,
    {
        if keys[k] {
            proof {
                lemma_lowest_key_from(keys@, k as int);
            }
            return Some(k as u8);
        }
        k += 1;
    }
    proof {
        assert(!any_key(keys@));
    }
    None
}

} // verus!


