//! The cycle semantics: what one decoded instruction does to the machine
//! state, and what one whole fetch-decode-execute-tick cycle yields.
//!
//! Two values reach the machine from outside during a cycle: the key
//! index a key-wait provider hands back, and the byte the random source
//! draws.  Both are parameters here, so the semantics is a pure function;
//! the executable cycle is proved against it for whatever values came in.

use vstd::prelude::*;
use crate::display::{spec_draw, spec_draw_collision};
use crate::error::ErrorKind;
use crate::instruction::{spec_decode, Instruction};
use crate::machine::{blank_display, MachineState};

verus! {

/// An 8-bit value wrapped modulo 256.
pub open spec fn wrap8(v: int) -> u8 {
    (v % 256) as u8
}

/// The program counter stepped past one 2-byte instruction, reduced to
/// the 12-bit address space.
pub open spec fn spec_advance(pc: u16) -> u16 {
    (((pc + 2) % 4096) as u16)
}

/// The program counter after a conditional skip: past the next
/// instruction too when the condition holds.
pub open spec fn spec_skip(pc: u16, cond: bool) -> u16 {
    (((pc + if cond { 4int } else { 2int }) % 4096) as u16)
}

/// Memory after registers `V0..Vupto` (exclusive bound) are copied to
/// consecutive addresses starting at the index register, wrapping in the
/// 12-bit address space.
pub open spec fn spec_store_regs(mem: Seq<u8>, regs: Seq<u8>, index: u16, upto: int) -> Seq<u8> {
    Seq::new(
        4096,
        |a: int|
            {
                let k = (a - index) % 4096;
                if k < upto {
                    regs[k]
                } else {
                    mem[a]
                }
            },
    )
}

/// Registers after `V0..Vupto` (exclusive bound) are filled from
/// consecutive memory addresses starting at the index register.
pub open spec fn spec_load_regs(mem: Seq<u8>, regs: Seq<u8>, index: u16, upto: int) -> Seq<u8> {
    Seq::new(
        16,
        |j: int|
            if j < upto {
                mem[(index + j) % 4096]
            } else {
                regs[j]
            },
    )
}

/// What one decoded instruction does to the machine state.
///
/// `key` is the value a key-wait provider returned (read only by the
/// key-wait instruction); `rnd` is the byte the random source drew (read
/// only by the random instruction).
///
/// Points the raw machine leaves open are pinned down here:
/// - every program-counter and index-register computation reduces modulo
///   4096, so the state stays well formed;
/// - the subtraction and shift instructions write their flag and their
///   result in sequence, so the flag register itself as an operand reads
///   the freshly written flag;
/// - the key-skip instructions read the key named by the low nibble of
///   the register;
/// - the long-jump form (`Bnnn`) is not implemented by this interpreter:
///   executing it reports the opcode as invalid instead of aborting.
pub open spec fn spec_step_instr(s: MachineState, instr: Instruction, key: u8, rnd: u8) -> Result<
    MachineState,
    ErrorKind,
> {
    match instr {
        Instruction::ClearDisplay => Ok(
            MachineState { disp: blank_display(), pc: spec_advance(s.pc), ..s },
        ),
        Instruction::Return => if s.stack.len() == 0 {
            Err(ErrorKind::StackUnderflow)
        } else {
            Ok(MachineState { pc: spec_advance(s.stack.last()), stack: s.stack.drop_last(), ..s })
        },
        Instruction::Jump(a) => Ok(MachineState { pc: a, ..s }),
        Instruction::Call(a) => if s.stack.len() >= 16 {
            Err(ErrorKind::StackOverflow)
        } else {
            Ok(MachineState { stack: s.stack.push(s.pc), pc: a, ..s })
        },
        Instruction::SkipEqualK(x, k) => Ok(
            MachineState { pc: spec_skip(s.pc, s.regs[x as int] == k), ..s },
        ),
        Instruction::SkipNotEqualK(x, k) => Ok(
            MachineState { pc: spec_skip(s.pc, s.regs[x as int] != k), ..s },
        ),
        Instruction::SkipEqual(x, y) => Ok(
            MachineState { pc: spec_skip(s.pc, s.regs[x as int] == s.regs[y as int]), ..s },
        ),
        Instruction::SetK(x, k) => Ok(
            MachineState { regs: s.regs.update(x as int, k), pc: spec_advance(s.pc), ..s },
        ),
        Instruction::AddK(x, k) => Ok(
            MachineState {
                regs: s.regs.update(x as int, wrap8(s.regs[x as int] + k)),
                pc: spec_advance(s.pc),
                ..s
            },
        ),
        Instruction::SetReg(x, y) => Ok(
            MachineState {
                regs: s.regs.update(x as int, s.regs[y as int]),
                pc: spec_advance(s.pc),
                ..s
            },
        ),
        Instruction::Or(x, y) => Ok(
            MachineState {
                regs: s.regs.update(x as int, s.regs[x as int] | s.regs[y as int]),
                pc: spec_advance(s.pc),
                ..s
            },
        ),
        Instruction::And(x, y) => Ok(
            MachineState {
                regs: s.regs.update(x as int, s.regs[x as int] & s.regs[y as int]),
                pc: spec_advance(s.pc),
                ..s
            },
        ),
        Instruction::XOr(x, y) => Ok(
            MachineState {
                regs: s.regs.update(x as int, s.regs[x as int] ^ s.regs[y as int]),
                pc: spec_advance(s.pc),
                ..s
            },
        ),
        Instruction::Add(x, y) => {
            let sum = s.regs[x as int] + s.regs[y as int];
            let regs1 = s.regs.update(x as int, wrap8(sum));
            let regs2 = regs1.update(15, if sum > 255 { 1u8 } else { 0u8 });
            Ok(MachineState { regs: regs2, pc: spec_advance(s.pc), ..s })
        },
        Instruction::Sub(x, y) => {
            let regs1 = s.regs.update(
                15,
                if s.regs[x as int] < s.regs[y as int] { 0u8 } else { 1u8 },
            );
            let regs2 = regs1.update(x as int, wrap8(regs1[x as int] - regs1[y as int]));
            Ok(MachineState { regs: regs2, pc: spec_advance(s.pc), ..s })
        },
        Instruction::ShiftRight(x) => {
            let regs1 = s.regs.update(15, (s.regs[x as int] % 2) as u8);
            let regs2 = regs1.update(x as int, (regs1[x as int] / 2) as u8);
            Ok(MachineState { regs: regs2, pc: spec_advance(s.pc), ..s })
        },
        Instruction::SubInv(x, y) => {
            let regs1 = s.regs.update(
                15,
                if s.regs[y as int] < s.regs[x as int] { 0u8 } else { 1u8 },
            );
            let regs2 = regs1.update(x as int, wrap8(regs1[y as int] - regs1[x as int]));
            Ok(MachineState { regs: regs2, pc: spec_advance(s.pc), ..s })
        },
        Instruction::ShiftLeft(x) => {
            let regs1 = s.regs.update(15, if s.regs[x as int] > 127 { 1u8 } else { 0u8 });
            let regs2 = regs1.update(x as int, wrap8(regs1[x as int] * 2));
            Ok(MachineState { regs: regs2, pc: spec_advance(s.pc), ..s })
        },
        Instruction::SkipNotEqual(x, y) => Ok(
            MachineState { pc: spec_skip(s.pc, s.regs[x as int] != s.regs[y as int]), ..s },
        ),
        Instruction::LoadI(a) => Ok(MachineState { index: a, pc: spec_advance(s.pc), ..s }),
        Instruction::LongJump(a) => Err(ErrorKind::InvalidOpcode((0xB000 + a) as u16)),
        Instruction::Rand(x, k) => Ok(
            MachineState { regs: s.regs.update(x as int, k & rnd), pc: spec_advance(s.pc), ..s },
        ),
        Instruction::Draw(x, y, n) => {
            let vx = s.regs[x as int];
            let vy = s.regs[y as int];
            let coll = spec_draw_collision(s.disp, s.mem, s.index, vx, vy, n as int);
            Ok(
                MachineState {
                    disp: spec_draw(s.disp, s.mem, s.index, vx, vy, n as int),
                    regs: s.regs.update(15, if coll { 1u8 } else { 0u8 }),
                    pc: spec_advance(s.pc),
                    ..s
                },
            )
        },
        Instruction::SkipPressed(x) => Ok(
            MachineState {
                pc: spec_skip(s.pc, s.keys[(s.regs[x as int] & 0x0F) as int]),
                ..s
            },
        ),
        Instruction::SkipNotPressed(x) => Ok(
            MachineState {
                pc: spec_skip(s.pc, !s.keys[(s.regs[x as int] & 0x0F) as int]),
                ..s
            },
        ),
        Instruction::GetTimer(x) => Ok(
            MachineState { regs: s.regs.update(x as int, s.delay), pc: spec_advance(s.pc), ..s },
        ),
        Instruction::WaitKey(x) => Ok(
            MachineState { regs: s.regs.update(x as int, key), pc: spec_advance(s.pc), ..s },
        ),
        Instruction::SetTimer(x) => Ok(
            MachineState { delay: s.regs[x as int], pc: spec_advance(s.pc), ..s },
        ),
        Instruction::SetSoundTimer(x) => Ok(
            MachineState { sound: s.regs[x as int], pc: spec_advance(s.pc), ..s },
        ),
        Instruction::AddToI(x) => Ok(
            MachineState {
                index: (((s.index + s.regs[x as int]) % 4096) as u16),
                pc: spec_advance(s.pc),
                ..s
            },
        ),
        Instruction::LoadHexGlyph(x) => Ok(
            MachineState { index: ((s.regs[x as int] * 5) as u16), pc: spec_advance(s.pc), ..s },
        ),
        Instruction::StoreBCD(x) => {
            let v = s.regs[x as int];
            let m1 = s.mem.update(s.index as int, (v / 100) as u8);
            let m2 = m1.update((s.index + 1) % 4096, ((v / 10) % 10) as u8);
            let m3 = m2.update((s.index + 2) % 4096, (v % 10) as u8);
            Ok(MachineState { mem: m3, pc: spec_advance(s.pc), ..s })
        },
        Instruction::StoreRegisters(x) => Ok(
            MachineState {
                mem: spec_store_regs(s.mem, s.regs, s.index, x + 1),
                pc: spec_advance(s.pc),
                ..s
            },
        ),
        Instruction::LoadRegisters(x) => Ok(
            MachineState {
                regs: spec_load_regs(s.mem, s.regs, s.index, x + 1),
                pc: spec_advance(s.pc),
                ..s
            },
        ),
    }
}

/// The timer tick that ends every successful cycle: each nonzero timer
/// counts down by one.
pub open spec fn spec_tick(s: MachineState) -> MachineState {
    MachineState {
        delay: if s.delay > 0 { (s.delay - 1) as u8 } else { 0u8 },
        sound: if s.sound > 0 { (s.sound - 1) as u8 } else { 0u8 },
        ..s
    }
}

/// Whether the cycle ending in state `s` sounds the tone: the sound
/// timer stands at exactly 1 before its decrement (one-shot, not
/// level-triggered).
pub open spec fn spec_beep(s: MachineState) -> bool {
    s.sound == 1
}

/// The 16-bit opcode fetched at the program counter: two bytes combined
/// big-endian, the second address reduced to the 12-bit space.
pub open spec fn spec_fetch(s: MachineState) -> u16 {
    ((s.mem[s.pc as int] * 256 + s.mem[(s.pc + 1) % 4096]) as u16)
}

/// One whole cycle: fetch, decode, execute, tick the timers.  A decode
/// failure or a stack fault leaves the state untouched and reports the
/// error.
pub open spec fn spec_cycle(s: MachineState, key: u8, rnd: u8) -> Result<
    (MachineState, bool),
    ErrorKind,
> {
    match spec_decode(spec_fetch(s)) {
        Err(e) => Err(e),
        Ok(instr) => match spec_step_instr(s, instr, key, rnd) {
            Err(e) => Err(e),
            Ok(s1) => Ok((spec_tick(s1), spec_beep(s1))),
        },
    }
}

} // verus!
