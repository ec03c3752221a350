//! The instruction set and the decoder's mathematical model.
//!
//! A raw opcode is a 16-bit word.  Decoding splits it into four nibbles
//! `(group, x, y, n)` and, depending on the group, the derived operands
//! `nn` (low byte) and `nnn` (low 12 bits).  Exactly 34 patterns are
//! recognised; every other word is an invalid opcode.

use vstd::prelude::*;
use crate::error::ErrorKind;

verus! {

/// A 12-bit memory address (held in a 16-bit word).
pub type Address = u16;

/// A register index in `0..=15`.
pub type RegisterNumber = u8;

/// One decoded instruction.  Operands are strongly typed: register
/// indices, 8-bit immediates or 12-bit addresses — never raw opcodes.
#[derive(Clone, Copy, Debug, PartialEq, Eq, Structural)]
pub enum Instruction {
    ClearDisplay,
    Return,
    Jump(Address),
    Call(Address),
    SkipEqualK(RegisterNumber, u8),
    SkipNotEqualK(RegisterNumber, u8),
    SkipEqual(RegisterNumber, RegisterNumber),
    SetK(RegisterNumber, u8),
    AddK(RegisterNumber, u8),
    SetReg(RegisterNumber, RegisterNumber),
    Or(RegisterNumber, RegisterNumber),
    And(RegisterNumber, RegisterNumber),
    XOr(RegisterNumber, RegisterNumber),
    Add(RegisterNumber, RegisterNumber),
    Sub(RegisterNumber, RegisterNumber),
    ShiftRight(RegisterNumber),
    SubInv(RegisterNumber, RegisterNumber),
    ShiftLeft(RegisterNumber),
    SkipNotEqual(RegisterNumber, RegisterNumber),
    LoadI(Address),
    LongJump(Address),
    Rand(RegisterNumber, u8),
    Draw(RegisterNumber, RegisterNumber, u8),
    SkipPressed(RegisterNumber),
    SkipNotPressed(RegisterNumber),
    GetTimer(RegisterNumber),
    WaitKey(RegisterNumber),
    SetTimer(RegisterNumber),
    SetSoundTimer(RegisterNumber),
    AddToI(RegisterNumber),
    LoadHexGlyph(RegisterNumber),
    StoreBCD(RegisterNumber),
    StoreRegisters(RegisterNumber),
    LoadRegisters(RegisterNumber),
}

/// The `x` operand: bits 8..=11 of the opcode.
pub open spec fn op_x(op: u16) -> u8 {
    ((op >> 8) & 0x0F) as u8
}

/// The `y` operand: bits 4..=7 of the opcode.
pub open spec fn op_y(op: u16) -> u8 {
    ((op >> 4) & 0x0F) as u8
}

/// The `n` operand: the low nibble of the opcode.
pub open spec fn op_n(op: u16) -> u8 {
    (op & 0x0F) as u8
}

/// The `nn` operand: the low byte of the opcode.
pub open spec fn op_nn(op: u16) -> u8 {
    (op & 0xFF) as u8
}

/// The `nnn` operand: the low 12 bits of the opcode.
pub open spec fn op_nnn(op: u16) -> u16 {
    op & 0x0FFF
}

/// Every operand a decoded instruction carries is in range: register
/// indices and nibble counts below 16, addresses below 4096.  Decoding
/// only ever produces such instructions.
pub open spec fn wf_instruction(instr: Instruction) -> bool {
    match instr {
        Instruction::ClearDisplay => true,
        Instruction::Return => true,
        Instruction::Jump(a) => a < 4096,
        Instruction::Call(a) => a < 4096,
        Instruction::SkipEqualK(x, _) => x < 16,
        Instruction::SkipNotEqualK(x, _) => x < 16,
        Instruction::SkipEqual(x, y) => x < 16 && y < 16,
        Instruction::SetK(x, _) => x < 16,
        Instruction::AddK(x, _) => x < 16,
        Instruction::SetReg(x, y) => x < 16 && y < 16,
        Instruction::Or(x, y) => x < 16 && y < 16,
        Instruction::And(x, y) => x < 16 && y < 16,
        Instruction::XOr(x, y) => x < 16 && y < 16,
        Instruction::Add(x, y) => x < 16 && y < 16,
        Instruction::Sub(x, y) => x < 16 && y < 16,
        Instruction::ShiftRight(x) => x < 16,
        Instruction::SubInv(x, y) => x < 16 && y < 16,
        Instruction::ShiftLeft(x) => x < 16,
        Instruction::SkipNotEqual(x, y) => x < 16 && y < 16,
        Instruction::LoadI(a) => a < 4096,
        Instruction::LongJump(a) => a < 4096,
        Instruction::Rand(x, _) => x < 16,
        Instruction::Draw(x, y, n) => x < 16 && y < 16 && n < 16,
        Instruction::SkipPressed(x) => x < 16,
        Instruction::SkipNotPressed(x) => x < 16,
        Instruction::GetTimer(x) => x < 16,
        Instruction::WaitKey(x) => x < 16,
        Instruction::SetTimer(x) => x < 16,
        Instruction::SetSoundTimer(x) => x < 16,
        Instruction::AddToI(x) => x < 16,
        Instruction::LoadHexGlyph(x) => x < 16,
        Instruction::StoreBCD(x) => x < 16,
        Instruction::StoreRegisters(x) => x < 16,
        Instruction::LoadRegisters(x) => x < 16,
    }
}

/// The instructions that only steer control flow: clearing the screen,
/// jumps, calls, returns and the conditional skips, together with the
/// unimplemented long-jump form.
pub open spec fn is_control_instruction(instr: Instruction) -> bool {
    match instr {
        Instruction::ClearDisplay
        | Instruction::Return
        | Instruction::Jump(_)
        | Instruction::Call(_)
        | Instruction::SkipEqualK(..)
        | Instruction::SkipNotEqualK(..)
        | Instruction::SkipEqual(..)
        | Instruction::SkipNotEqual(..)
        | Instruction::SkipPressed(_)
        | Instruction::SkipNotPressed(_)
        | Instruction::LongJump(_) => true,
        _ => false,
    }
}

/// The instructions whose result needs wrap-around arithmetic or a
/// carry, borrow or shifted-out flag: the sums, differences and shifts.
pub open spec fn is_arith_instruction(instr: Instruction) -> bool {
    match instr {
        Instruction::AddK(..)
        | Instruction::Add(..)
        | Instruction::Sub(..)
        | Instruction::ShiftRight(_)
        | Instruction::SubInv(..)
        | Instruction::ShiftLeft(_) => true,
        _ => false,
    }
}

/// The remaining register- and timer-writing instructions: plain loads,
/// bitwise logic, the random draw and the key wait.
pub open spec fn is_register_instruction(instr: Instruction) -> bool {
    match instr {
        Instruction::SetK(..)
        | Instruction::SetReg(..)
        | Instruction::Or(..)
        | Instruction::And(..)
        | Instruction::XOr(..)
        | Instruction::Rand(..)
        | Instruction::GetTimer(_)
        | Instruction::WaitKey(_)
        | Instruction::SetTimer(_)
        | Instruction::SetSoundTimer(_) => true,
        _ => false,
    }
}

/// The instructions that go through the index register: memory block
/// moves, the BCD store, the sprite draw and the index loads.
pub open spec fn is_memory_instruction(instr: Instruction) -> bool {
    match instr {
        Instruction::LoadI(_)
        | Instruction::AddToI(_)
        | Instruction::LoadHexGlyph(_)
        | Instruction::StoreBCD(_)
        | Instruction::StoreRegisters(_)
        | Instruction::LoadRegisters(_)
        | Instruction::Draw(..) => true,
        _ => false,
    }
}

/// What decoding a 16-bit opcode yields: exactly one instruction variant,
/// or `InvalidOpcode` carrying the raw word.
pub open spec fn spec_decode(op: u16) -> Result<Instruction, ErrorKind> {
    let group = op >> 12;
    let x = op_x(op);
    let y = op_y(op);
    let n = op_n(op);
    let nn = op_nn(op);
    let nnn = op_nnn(op);
    if op == 0x00E0 {
        Ok(Instruction::ClearDisplay)
    } else if op == 0x00EE {
        Ok(Instruction::Return)
    } else if group == 0x1 {
        Ok(Instruction::Jump(nnn))
    } else if group == 0x2 {
        Ok(Instruction::Call(nnn))
    } else if group == 0x3 {
        Ok(Instruction::SkipEqualK(x, nn))
    } else if group == 0x4 {
        Ok(Instruction::SkipNotEqualK(x, nn))
    } else if group == 0x5 && n == 0x0 {
        Ok(Instruction::SkipEqual(x, y))
    } else if group == 0x6 {
        Ok(Instruction::SetK(x, nn))
    } else if group == 0x7 {
        Ok(Instruction::AddK(x, nn))
    } else if group == 0x8 && n == 0x0 {
        Ok(Instruction::SetReg(x, y))
    } else if group == 0x8 && n == 0x1 {
        Ok(Instruction::Or(x, y))
    } else if group == 0x8 && n == 0x2 {
        Ok(Instruction::And(x, y))
    } else if group == 0x8 && n == 0x3 {
        Ok(Instruction::XOr(x, y))
    } else if group == 0x8 && n == 0x4 {
        Ok(Instruction::Add(x, y))
    } else if group == 0x8 && n == 0x5 {
        Ok(Instruction::Sub(x, y))
    } else if group == 0x8 && n == 0x6 {
        Ok(Instruction::ShiftRight(x))
    } else if group == 0x8 && n == 0x7 {
        Ok(Instruction::SubInv(x, y))
    } else if group == 0x8 && n == 0xE {
        Ok(Instruction::ShiftLeft(x))
    } else if group == 0x9 && n == 0x0 {
        Ok(Instruction::SkipNotEqual(x, y))
    } else if group == 0xA {
        Ok(Instruction::LoadI(nnn))
    } else if group == 0xB {
        Ok(Instruction::LongJump(nnn))
    } else if group == 0xC {
        Ok(Instruction::Rand(x, nn))
    } else if group == 0xD {
        Ok(Instruction::Draw(x, y, n))
    } else if group == 0xE && nn == 0x9E {
        Ok(Instruction::SkipPressed(x))
    } else if group == 0xE && nn == 0xA1 {
        Ok(Instruction::SkipNotPressed(x))
    } else if group == 0xF && nn == 0x07 {
        Ok(Instruction::GetTimer(x))
    } else if group == 0xF && nn == 0x0A {
        Ok(Instruction::WaitKey(x))
    } else if group == 0xF && nn == 0x15 {
        Ok(Instruction::SetTimer(x))
    } else if group == 0xF && nn == 0x18 {
        Ok(Instruction::SetSoundTimer(x))
    } else if group == 0xF && nn == 0x1E {
        Ok(Instruction::AddToI(x))
    } else if group == 0xF && nn == 0x29 {
        Ok(Instruction::LoadHexGlyph(x))
    } else if group == 0xF && nn == 0x33 {
        Ok(Instruction::StoreBCD(x))
    } else if group == 0xF && nn == 0x55 {
        Ok(Instruction::StoreRegisters(x))
    } else if group == 0xF && nn == 0x65 {
        Ok(Instruction::LoadRegisters(x))
    } else {
        Err(ErrorKind::InvalidOpcode(op))
    }
}

/// A successfully decoded instruction has all operands in range.
pub proof fn lemma_decode_wf(op: u16)
    ensures
        spec_decode(op) matches Ok(instr) ==> wf_instruction(instr),
{
    assert((op >> 8) & 0x0F < 16) by (bit_vector);
    assert((op >> 4) & 0x0F < 16) by (bit_vector);
    assert(op & 0x0F < 16) by (bit_vector);
    assert(op & 0x0FFF < 4096) by (bit_vector);
}

impl crate::machine::Chip8 {
    /// Decode a raw 16-bit opcode into exactly one instruction, or
    /// report `InvalidOpcode` carrying the word.  Decoding is total and
    /// pure: it looks at nothing but the opcode's nibbles.
    pub fn parse_instruction(opcode: u16) -> (r: Result<Instruction, ErrorKind>)
        ensures
            r == spec_decode(opcode),
            r matches Ok(instr) ==> wf_instruction(instr),
    {
        proof {
            lemma_decode_wf(opcode);
        }
        let group = opcode >> 12;
        let x = ((opcode >> 8) & 0x0F) as u8;
        let y = ((opcode >> 4) & 0x0F) as u8;
        let n = (opcode & 0x0F) as u8;
        let nn = (opcode & 0xFF) as u8;
        let nnn = opcode & 0x0FFF;
        if opcode == 0x00E0 {
            Ok(Instruction::ClearDisplay)
        } else if opcode == 0x00EE {
            Ok(Instruction::Return)
        } else if group == 0x1 {
            Ok(Instruction::Jump(nnn))
        } else if group == 0x2 {
            Ok(Instruction::Call(nnn))
        } else if group == 0x3 {
            Ok(Instruction::SkipEqualK(x, nn))
        } else if group == 0x4 {
            Ok(Instruction::SkipNotEqualK(x, nn))
        } else if group == 0x5 && n == 0x0 {
            Ok(Instruction::SkipEqual(x, y))
        } else if group == 0x6 {
            Ok(Instruction::SetK(x, nn))
        } else if group == 0x7 {
            Ok(Instruction::AddK(x, nn))
        } else if group == 0x8 && n == 0x0 {
            Ok(Instruction::SetReg(x, y))
        } else if group == 0x8 && n == 0x1 {
            Ok(Instruction::Or(x, y))
        } else if group == 0x8 && n == 0x2 {
            Ok(Instruction::And(x, y))
        } else if group == 0x8 && n == 0x3 {
            Ok(Instruction::XOr(x, y))
        } else if group == 0x8 && n == 0x4 {
            Ok(Instruction::Add(x, y))
        } else if group == 0x8 && n == 0x5 {
            Ok(Instruction::Sub(x, y))
        } else if group == 0x8 && n == 0x6 {
            Ok(Instruction::ShiftRight(x))
        } else if group == 0x8 && n == 0x7 {
            Ok(Instruction::SubInv(x, y))
        } else if group == 0x8 && n == 0xE {
            Ok(Instruction::ShiftLeft(x))
        } else if group == 0x9 && n == 0x0 {
            Ok(Instruction::SkipNotEqual(x, y))
        } else if group == 0xA {
            Ok(Instruction::LoadI(nnn))
        } else if group == 0xB {
            Ok(Instruction::LongJump(nnn))
        } else if group == 0xC {
            Ok(Instruction::Rand(x, nn))
        } else if group == 0xD {
            Ok(Instruction::Draw(x, y, n))
        } else if group == 0xE && nn == 0x9E {
            Ok(Instruction::SkipPressed(x))
        } else if group == 0xE && nn == 0xA1 {
            Ok(Instruction::SkipNotPressed(x))
        } else if group == 0xF && nn == 0x07 {
            Ok(Instruction::GetTimer(x))
        } else if group == 0xF && nn == 0x0A {
            Ok(Instruction::WaitKey(x))
        } else if group == 0xF && nn == 0x15 {
            Ok(Instruction::SetTimer(x))
        } else if group == 0xF && nn == 0x18 {
            Ok(Instruction::SetSoundTimer(x))
        } else if group == 0xF && nn == 0x1E {
            Ok(Instruction::AddToI(x))
        } else if group == 0xF && nn == 0x29 {
            Ok(Instruction::LoadHexGlyph(x))
        } else if group == 0xF && nn == 0x33 {
            Ok(Instruction::StoreBCD(x))
        } else if group == 0xF && nn == 0x55 {
            Ok(Instruction::StoreRegisters(x))
        } else if group == 0xF && nn == 0x65 {
            Ok(Instruction::LoadRegisters(x))
        } else {
            Err(ErrorKind::InvalidOpcode(opcode))
        }
    }
}

} // verus!
