use vstd::prelude::*;

use crate::font::font_byte;
use crate::isa::Instr;
use crate::isa::spec_decode;
use crate::semantics::bump;
use crate::semantics::draw_collision;
use crate::semantics::draw_display;
use crate::semantics::load_view;
use crate::semantics::lowest_key;
use crate::semantics::lemma_lowest_key_from;
use crate::semantics::sprite_hits;
use crate::semantics::step_rel;
use crate::semantics::upd_reg;
use crate::state::DisplayState;
use crate::state::VmError;
use crate::state::VmView;
use crate::state::view_wf;

verus! {

/// Loading a program of at most 3584 bytes succeeds with the program bytes
/// unchanged at addresses 0x200.., the font table present at 0x050..0x0A0,
/// and the two never overlapping: the font ends at address 159 and the
/// program starts at address 512.
pub proof fn lemma_load_layout(prog: Seq<u8>)
    requires
        prog.len() <= 3584,
    ensures
        view_wf(load_view(prog)),
        load_view(prog).pc == 512,
        forall|k: int| 0 <= k < prog.len() ==> load_view(prog).mem[512 + k] == prog[k],
        forall|a: int|
            80 <= a < 160 ==> load_view(prog).mem[a] == font_byte((a - 80) / 5, (a - 80) % 5),
{
}

/// XOR self-cancellation: drawing the same sprite a second time at the same
/// location toggles every pixel it toggled back, restoring the framebuffer
/// exactly; and the second draw reports a collision precisely when the first
/// draw turned some pixel on, that is, when some lit sprite bit inside the
/// screen landed on a pixel that was off.
pub proof fn lemma_draw_twice(disp: Seq<bool>, mem: Seq<u8>, i: int, n: int, x0: int, y0: int)
    requires
        disp.len() == 2048,
    ensures
        draw_display(draw_display(disp, mem, i, n, x0, y0), mem, i, n, x0, y0) == disp,
        draw_collision(draw_display(disp, mem, i, n, x0, y0), mem, i, n, x0, y0) <==> (exists|p: int|
            0 <= p < 2048 && sprite_hits(mem, i, n, x0, y0, p) && !disp[p]),
{
    let once = draw_display(disp, mem, i, n, x0, y0);
    assert(draw_display(once, mem, i, n, x0, y0) =~= disp);
    if draw_collision(once, mem, i, n, x0, y0) {
        let w = choose|p: int| 0 <= p < 2048 && sprite_hits(mem, i, n, x0, y0, p) && once[p];
        assert(!disp[w]);
        assert(0 <= w < 2048 && sprite_hits(mem, i, n, x0, y0, w) && !disp[w]);
    }
    if exists|p: int| 0 <= p < 2048 && sprite_hits(mem, i, n, x0, y0, p) && !disp[p] {
        let w = choose|p: int| 0 <= p < 2048 && sprite_hits(mem, i, n, x0, y0, p) && !disp[p];
        assert(once[w]);
        assert(draw_collision(once, mem, i, n, x0, y0));
    }
}

/// A return with nothing on the call stack is fatal, and like every fatal
/// condition leaves the machine untouched.
pub proof fn lemma_ret_on_empty_stack(s1: VmView, keys: Seq<bool>, s2: VmView, r: Result<
    DisplayState,
    VmError,
>)
    requires
        step_rel(s1, keys, s2, r),
        s1.pc < 4095,
        spec_decode(s1.mem[s1.pc as int], s1.mem[s1.pc as int + 1]) == Instr::Ret,
        s1.stack.len() == 0,
    ensures
        r == Err::<DisplayState, VmError>(VmError::EmptyStackReturn),
        s2 == s1,
{
}

/// A subroutine call followed at once by a return comes back to the
/// instruction after the call: both steps succeed, the program counter ends
/// two bytes past where it began, and the stack, memory, registers,
/// framebuffer and timers are as they were.
pub proof fn lemma_call_then_ret(
    s1: VmView,
    k1: Seq<bool>,
    s2: VmView,
    r1: Result<DisplayState, VmError>,
    k2: Seq<bool>,
    s3: VmView,
    r2: Result<DisplayState, VmError>,
    nnn: u16,
)
    requires
        step_rel(s1, k1, s2, r1),
        step_rel(s2, k2, s3, r2),
        s1.pc < 4095,
        spec_decode(s1.mem[s1.pc as int], s1.mem[s1.pc as int + 1]) == Instr::Call(nnn),
        s2.pc < 4095,
        spec_decode(s2.mem[s2.pc as int], s2.mem[s2.pc as int + 1]) == Instr::Ret,
    ensures
        r1 == Ok::<DisplayState, VmError>(DisplayState::NotUpdated),
        r2 == Ok::<DisplayState, VmError>(DisplayState::NotUpdated),
        s3.pc == s1.pc + 2,
        s3 == (VmView { pc: (s1.pc + 2) as u16, ..s1 }),
{
    assert(s2 == (VmView { pc: nnn, stack: s1.stack.push((s1.pc + 2) as u16), ..bump(s1) }));
    assert(s2.stack.len() > 0);
    assert(s2.stack.last() == (s1.pc + 2) as u16);
    assert(s2.stack.drop_last() =~= s1.stack);
    assert(s3 =~= (VmView { pc: (s1.pc + 2) as u16, ..s1 }));
}

/// The blocking key wait with no key down is a no-op: the counter's advance
/// is undone, so the same instruction runs again on the next step, however
/// often it is retried.
pub proof fn lemma_wait_key_no_press(
    s1: VmView,
    keys: Seq<bool>,
    s2: VmView,
    r: Result<DisplayState, VmError>,
    x: u8,
)
    requires
        step_rel(s1, keys, s2, r),
        s1.pc < 4095,
        spec_decode(s1.mem[s1.pc as int], s1.mem[s1.pc as int + 1]) == Instr::WaitKey(x),
        forall|k: int| 0 <= k < 16 ==> !keys[k],
    ensures
        r == Ok::<DisplayState, VmError>(DisplayState::NotUpdated),
        s2 == s1,
{
}

/// Once a key is down, the blocking key wait stores the lowest-indexed
/// pressed key in VX and the program counter moves on normally.
pub proof fn lemma_wait_key_press(
    s1: VmView,
    keys: Seq<bool>,
    s2: VmView,
    r: Result<DisplayState, VmError>,
    x: u8,
    k: int,
)
    requires
        step_rel(s1, keys, s2, r),
        s1.pc < 4095,
        spec_decode(s1.mem[s1.pc as int], s1.mem[s1.pc as int + 1]) == Instr::WaitKey(x),
        0 <= k < 16,
        keys[k],
        forall|j: int| 0 <= j < k ==> !keys[j],
    ensures
        r == Ok::<DisplayState, VmError>(DisplayState::NotUpdated),
        s2 == upd_reg(bump(s1), x, k as u8),
        s2.pc == s1.pc + 2,
{
    lemma_lowest_key_from(keys, k);
    assert(lowest_key(keys, 0) == k);
}

} // verus!
