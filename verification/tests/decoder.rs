use chip8::error::ErrorKind;
use chip8::instruction::Instruction;
use chip8::machine::Chip8;

#[test]
fn decode_invalid_group5_trailing_nibble() {
    // Group 5 with a nonzero trailing nibble is undefined in the base set.
    assert_eq!(
        Chip8::parse_instruction(0x5123),
        Err(ErrorKind::InvalidOpcode(0x5123))
    );
}

#[test]
fn decode_other_invalid_opcodes() {
    assert_eq!(
        Chip8::parse_instruction(0x0000),
        Err(ErrorKind::InvalidOpcode(0x0000))
    );
    assert_eq!(
        Chip8::parse_instruction(0x8008),
        Err(ErrorKind::InvalidOpcode(0x8008))
    );
    assert_eq!(
        Chip8::parse_instruction(0xE0FF),
        Err(ErrorKind::InvalidOpcode(0xE0FF))
    );
    assert_eq!(
        Chip8::parse_instruction(0xF0FF),
        Err(ErrorKind::InvalidOpcode(0xF0FF))
    );
}

#[test]
fn decode_clear_and_return() {
    assert_eq!(Chip8::parse_instruction(0x00E0), Ok(Instruction::ClearDisplay));
    assert_eq!(Chip8::parse_instruction(0x00EE), Ok(Instruction::Return));
}

#[test]
fn decode_jumps_and_calls() {
    assert_eq!(Chip8::parse_instruction(0x1ABC), Ok(Instruction::Jump(0xABC)));
    assert_eq!(Chip8::parse_instruction(0x2123), Ok(Instruction::Call(0x123)));
    assert_eq!(Chip8::parse_instruction(0xB321), Ok(Instruction::LongJump(0x321)));
}

#[test]
fn decode_skips() {
    assert_eq!(
        Chip8::parse_instruction(0x3A42),
        Ok(Instruction::SkipEqualK(0xA, 0x42))
    );
    assert_eq!(
        Chip8::parse_instruction(0x4B99),
        Ok(Instruction::SkipNotEqualK(0xB, 0x99))
    );
    assert_eq!(Chip8::parse_instruction(0x5120), Ok(Instruction::SkipEqual(1, 2)));
    assert_eq!(
        Chip8::parse_instruction(0x9340),
        Ok(Instruction::SkipNotEqual(3, 4))
    );
    assert_eq!(Chip8::parse_instruction(0xE29E), Ok(Instruction::SkipPressed(2)));
    assert_eq!(
        Chip8::parse_instruction(0xE7A1),
        Ok(Instruction::SkipNotPressed(7))
    );
}

#[test]
fn decode_register_loads() {
    assert_eq!(Chip8::parse_instruction(0x6C55), Ok(Instruction::SetK(0xC, 0x55)));
    assert_eq!(Chip8::parse_instruction(0x7301), Ok(Instruction::AddK(3, 1)));
    assert_eq!(Chip8::parse_instruction(0x8120), Ok(Instruction::SetReg(1, 2)));
}

#[test]
fn decode_alu_group() {
    assert_eq!(Chip8::parse_instruction(0x8121), Ok(Instruction::Or(1, 2)));
    assert_eq!(Chip8::parse_instruction(0x8122), Ok(Instruction::And(1, 2)));
    assert_eq!(Chip8::parse_instruction(0x8123), Ok(Instruction::XOr(1, 2)));
    assert_eq!(Chip8::parse_instruction(0x8124), Ok(Instruction::Add(1, 2)));
    assert_eq!(Chip8::parse_instruction(0x8125), Ok(Instruction::Sub(1, 2)));
    assert_eq!(Chip8::parse_instruction(0x8126), Ok(Instruction::ShiftRight(1)));
    assert_eq!(Chip8::parse_instruction(0x8127), Ok(Instruction::SubInv(1, 2)));
    assert_eq!(Chip8::parse_instruction(0x812E), Ok(Instruction::ShiftLeft(1)));
}

#[test]
fn decode_index_and_draw() {
    assert_eq!(Chip8::parse_instruction(0xA123), Ok(Instruction::LoadI(0x123)));
    assert_eq!(Chip8::parse_instruction(0xC2F0), Ok(Instruction::Rand(2, 0xF0)));
    assert_eq!(Chip8::parse_instruction(0xD125), Ok(Instruction::Draw(1, 2, 5)));
}

#[test]
fn decode_effects_group() {
    assert_eq!(Chip8::parse_instruction(0xF107), Ok(Instruction::GetTimer(1)));
    assert_eq!(Chip8::parse_instruction(0xF20A), Ok(Instruction::WaitKey(2)));
    assert_eq!(Chip8::parse_instruction(0xF315), Ok(Instruction::SetTimer(3)));
    assert_eq!(Chip8::parse_instruction(0xF418), Ok(Instruction::SetSoundTimer(4)));
    assert_eq!(Chip8::parse_instruction(0xF51E), Ok(Instruction::AddToI(5)));
    assert_eq!(Chip8::parse_instruction(0xF629), Ok(Instruction::LoadHexGlyph(6)));
    assert_eq!(Chip8::parse_instruction(0xF733), Ok(Instruction::StoreBCD(7)));
    assert_eq!(
        Chip8::parse_instruction(0xF855),
        Ok(Instruction::StoreRegisters(8))
    );
    assert_eq!(
        Chip8::parse_instruction(0xF965),
        Ok(Instruction::LoadRegisters(9))
    );
}
