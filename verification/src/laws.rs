//! Laws of the instruction set: properties that hold of every state, not
//! just of chosen inputs, each proved against the cycle semantics.

use vstd::prelude::*;
use crate::display::{spec_draw, spec_draw_collision, sprite_hit, wf_disp};
use crate::error::ErrorKind;
use crate::instruction::Instruction;
use crate::machine::MachineState;
use crate::step::{spec_advance, spec_step_instr};

verus! {

/// For all 8-bit values `a` and `b` in `Vx` and `Vy`: `ADD Vx,Vy` puts
/// `(a + b) mod 256` into `Vx` and sets `VF` to 1 exactly when
/// `a + b > 255`, else to 0.  (When `Vx` is the flag register itself,
/// the flag, written last, is what remains.)
pub proof fn lemma_add_semantics(s: MachineState, x: u8, y: u8, key: u8, rnd: u8)
    requires
        s.wf(),
        x < 16,
        y < 16,
    ensures
        ({
            let a = s.regs[x as int];
            let b = s.regs[y as int];
            spec_step_instr(s, Instruction::Add(x, y), key, rnd) matches Ok(s1) && {
                &&& s1.regs[15] == (if a + b > 255 { 1u8 } else { 0u8 })
                &&& x != 15 ==> s1.regs[x as int] == (a + b) % 256
                &&& s1.pc == spec_advance(s.pc)
            }
        }),
{
}

/// For all 8-bit values `a` and `b` in `Vx` and `Vy`, with neither
/// operand the flag register: `SUB Vx,Vy` puts `(a - b) mod 256` into
/// `Vx` and sets `VF` to 0 exactly when `a < b` (a borrow), else to 1.
/// The flag is computed from the operands before the subtraction.
pub proof fn lemma_sub_semantics(s: MachineState, x: u8, y: u8, key: u8, rnd: u8)
    requires
        s.wf(),
        x < 16,
        y < 16,
        x != 15,
        y != 15,
    ensures
        ({
            let a = s.regs[x as int];
            let b = s.regs[y as int];
            spec_step_instr(s, Instruction::Sub(x, y), key, rnd) matches Ok(s1) && {
                &&& s1.regs[15] == (if a < b { 0u8 } else { 1u8 })
                &&& s1.regs[x as int] == (a - b) % 256
                &&& s1.pc == spec_advance(s.pc)
            }
        }),
{
}

/// Clearing the screen yields an all-dark display, whatever the display
/// held before.
pub proof fn lemma_clear_display(s: MachineState, key: u8, rnd: u8)
    requires
        s.wf(),
    ensures
        spec_step_instr(s, Instruction::ClearDisplay, key, rnd) matches Ok(s1) && forall|
            r: int,
            c: int,
        |
            0 <= r < 32 && 0 <= c < 64 ==> !(#[trigger] s1.disp[r][c]),
{
}

/// Blitting the same sprite twice restores every pixel, and the second
/// blit collides exactly where the first blit set a pixel.
pub proof fn lemma_blit_twice(
    disp: Seq<Seq<bool>>,
    mem: Seq<u8>,
    index: u16,
    vx: u8,
    vy: u8,
    n: int,
)
    requires
        wf_disp(disp),
        0 <= n,
    ensures
        spec_draw(spec_draw(disp, mem, index, vx, vy, n), mem, index, vx, vy, n) == disp,
        spec_draw_collision(spec_draw(disp, mem, index, vx, vy, n), mem, index, vx, vy, n) <==> (
        exists|r: int, c: int|
            0 <= r < 32 && 0 <= c < 64 && #[trigger] sprite_hit(mem, index, vx, vy, n, r, c)
                && !disp[r][c]),
{
    let d1 = spec_draw(disp, mem, index, vx, vy, n);
    let d2 = spec_draw(d1, mem, index, vx, vy, n);
    assert forall|r: int, c: int| 0 <= r < 32 && 0 <= c < 64 implies (#[trigger] d2[r][c])
        == disp[r][c] by {
        assert(d1[r][c] == (disp[r][c] != sprite_hit(mem, index, vx, vy, n, r, c)));
    }
    assert(d2 =~~= disp);
    if spec_draw_collision(d1, mem, index, vx, vy, n) {
        let (r, c) = choose|r: int, c: int|
            0 <= r < 32 && 0 <= c < 64 && #[trigger] sprite_hit(mem, index, vx, vy, n, r, c)
                && d1[r][c];
        assert(d1[r][c] == (disp[r][c] != sprite_hit(mem, index, vx, vy, n, r, c)));
        assert(!disp[r][c]);
    }
    if exists|r: int, c: int|
        0 <= r < 32 && 0 <= c < 64 && #[trigger] sprite_hit(mem, index, vx, vy, n, r, c)
            && !disp[r][c] {
        let (r, c) = choose|r: int, c: int|
            0 <= r < 32 && 0 <= c < 64 && #[trigger] sprite_hit(mem, index, vx, vy, n, r, c)
                && !disp[r][c];
        assert(d1[r][c] == (disp[r][c] != sprite_hit(mem, index, vx, vy, n, r, c)));
        assert(spec_draw_collision(d1, mem, index, vx, vy, n));
    }
}

/// The draw instruction run twice with the same operand registers (and
/// neither operand the flag register) restores the display to its prior
/// state, and the second run sets `VF` to 1 exactly when the first run
/// turned some pixel on.
pub proof fn lemma_draw_twice(s: MachineState, x: u8, y: u8, n: u8, key: u8, rnd: u8)
    requires
        s.wf(),
        x < 16,
        y < 16,
        x != 15,
        y != 15,
        n < 16,
    ensures
        ({
            let vx = s.regs[x as int];
            let vy = s.regs[y as int];
            spec_step_instr(s, Instruction::Draw(x, y, n), key, rnd) matches Ok(s1) && (
            spec_step_instr(s1, Instruction::Draw(x, y, n), key, rnd) matches Ok(s2) && {
                &&& s2.disp == s.disp
                &&& s2.regs[15] == 1u8 <==> (exists|r: int, c: int|
                    0 <= r < 32 && 0 <= c < 64 && #[trigger] sprite_hit(
                        s.mem,
                        s.index,
                        vx,
                        vy,
                        n as int,
                        r,
                        c,
                    ) && !s.disp[r][c])
            })
        }),
{
    lemma_blit_twice(s.disp, s.mem, s.index, s.regs[x as int], s.regs[y as int], n as int);
}

/// A call followed by a return lands the program counter on the address
/// just past the call instruction, and the stack is as it was before
/// the call.
pub proof fn lemma_call_return(s: MachineState, a: u16, key: u8, rnd: u8)
    requires
        s.wf(),
        a < 4096,
        s.stack.len() < 16,
    ensures
        spec_step_instr(s, Instruction::Call(a), key, rnd) matches Ok(s1) && (spec_step_instr(
            s1,
            Instruction::Return,
            key,
            rnd,
        ) matches Ok(s2) && {
            &&& s2.pc == spec_advance(s.pc)
            &&& s2.stack == s.stack
        }),
{
    assert(s.stack.push(s.pc).drop_last() =~= s.stack);
}

/// A return on an empty call stack reports a stack underflow, whatever
/// the rest of the state holds; nothing aborts.
pub proof fn lemma_return_underflow(s: MachineState, key: u8, rnd: u8)
    requires
        s.stack.len() == 0,
    ensures
        spec_step_instr(s, Instruction::Return, key, rnd) == Err::<MachineState, ErrorKind>(
            ErrorKind::StackUnderflow,
        ),
{
}

} // verus!
