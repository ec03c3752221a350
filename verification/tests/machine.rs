use chip8::error::ErrorKind;
use chip8::instruction::Instruction;
use chip8::machine::Chip8;

#[test]
fn new_machine_is_zeroed_with_font() {
    let m = Chip8::new();
    // First and last font bytes, and the gap after the font.
    assert_eq!(m.get_byte_from_memory(0), 0xF0);
    assert_eq!(m.get_byte_from_memory(79), 0x80);
    assert_eq!(m.get_byte_from_memory(80), 0);
    assert_eq!(m.get_byte_from_memory(0x200), 0);
    for x in 0..16 {
        assert_eq!(m.get_register_value(x), 0);
        assert!(!m.get_key_pressed(x));
    }
    let d = m.get_display_buffer();
    assert!(d.iter().all(|row| row.iter().all(|p| !p)));
}

#[test]
fn load_rom_copies_at_0x200_and_keeps_font() {
    let mut m = Chip8::new();
    assert_eq!(m.load_rom(vec![0xAB, 0xCD, 0xEF]), Ok(()));
    assert_eq!(m.get_byte_from_memory(0x200), 0xAB);
    assert_eq!(m.get_byte_from_memory(0x201), 0xCD);
    assert_eq!(m.get_byte_from_memory(0x202), 0xEF);
    assert_eq!(m.get_byte_from_memory(0x203), 0);
    // The font survives a load.
    assert_eq!(m.get_byte_from_memory(0), 0xF0);
}

#[test]
fn load_rom_rejects_oversized_rom() {
    let mut m = Chip8::new();
    assert_eq!(m.load_rom(vec![0u8; 3585]), Err(ErrorKind::ProgramTooLarge));
    // The largest allowed ROM fills memory to the top.
    assert_eq!(m.load_rom(vec![0x77u8; 3584]), Ok(()));
    assert_eq!(m.get_byte_from_memory(4095), 0x77);
}

#[test]
fn set_key_validates_index() {
    let mut m = Chip8::new();
    assert_eq!(m.set_key(15, true), Ok(()));
    assert!(m.get_key_pressed(15));
    assert_eq!(m.set_key(15, false), Ok(()));
    assert!(!m.get_key_pressed(15));
    assert_eq!(m.set_key(16, true), Err(ErrorKind::InvalidKeyIndex));
}

#[test]
fn add_program_three_cycles() {
    // V0 = 5, V1 = 3, ADD V0,V1.
    let mut m = Chip8::new();
    m.load_rom(vec![0x60, 0x05, 0x61, 0x03, 0x80, 0x14]).unwrap();
    for _ in 0..3 {
        m.execute_cycle(|| 0).unwrap();
    }
    assert_eq!(m.get_register_value(0), 8);
    assert_eq!(m.get_register_value(15), 0);
}

#[test]
fn add_program_overflow_wraps_and_sets_vf() {
    // V0 = 255, V1 = 1, ADD V0,V1.
    let mut m = Chip8::new();
    m.load_rom(vec![0x60, 0xFF, 0x61, 0x01, 0x80, 0x14]).unwrap();
    for _ in 0..3 {
        m.execute_cycle(|| 0).unwrap();
    }
    assert_eq!(m.get_register_value(0), 0);
    assert_eq!(m.get_register_value(15), 1);
}

#[test]
fn sub_without_borrow() {
    let mut m = Chip8::new();
    m.set_register_value(0, 5);
    m.set_register_value(1, 3);
    m.execute_instruction(Instruction::Sub(0, 1), 0, 0).unwrap();
    assert_eq!(m.get_register_value(0), 2);
    assert_eq!(m.get_register_value(15), 1);
}

#[test]
fn sub_with_borrow_wraps() {
    let mut m = Chip8::new();
    m.set_register_value(0, 3);
    m.set_register_value(1, 5);
    m.execute_instruction(Instruction::Sub(0, 1), 0, 0).unwrap();
    assert_eq!(m.get_register_value(0), 254);
    assert_eq!(m.get_register_value(15), 0);
}

#[test]
fn add_clears_vf_when_no_carry() {
    let mut m = Chip8::new();
    m.set_register_value(15, 1);
    m.set_register_value(0, 2);
    m.set_register_value(1, 3);
    m.execute_instruction(Instruction::Add(0, 1), 0, 0).unwrap();
    assert_eq!(m.get_register_value(0), 5);
    // The carry flag is written on every add: cleared when there is no
    // carry.
    assert_eq!(m.get_register_value(15), 0);
}

#[test]
fn subinv_computes_vy_minus_vx() {
    let mut m = Chip8::new();
    m.set_register_value(2, 10);
    m.set_register_value(3, 30);
    m.execute_instruction(Instruction::SubInv(2, 3), 0, 0).unwrap();
    assert_eq!(m.get_register_value(2), 20);
    // The borrow flag lands in VF, register 15.
    assert_eq!(m.get_register_value(15), 1);
    m.set_register_value(4, 30);
    m.set_register_value(5, 10);
    m.execute_instruction(Instruction::SubInv(4, 5), 0, 0).unwrap();
    assert_eq!(m.get_register_value(4), 236);
    assert_eq!(m.get_register_value(15), 0);
}

#[test]
fn shift_right_keeps_low_bit_in_vf() {
    let mut m = Chip8::new();
    m.set_register_value(0, 0x0B);
    m.execute_instruction(Instruction::ShiftRight(0), 0, 0).unwrap();
    assert_eq!(m.get_register_value(0), 0x05);
    assert_eq!(m.get_register_value(15), 1);
    m.execute_instruction(Instruction::ShiftRight(0), 0, 0).unwrap();
    assert_eq!(m.get_register_value(0), 0x02);
    assert_eq!(m.get_register_value(15), 1);
    m.execute_instruction(Instruction::ShiftRight(0), 0, 0).unwrap();
    assert_eq!(m.get_register_value(15), 0);
}

#[test]
fn shift_left_keeps_high_bit_in_vf() {
    let mut m = Chip8::new();
    m.set_register_value(0, 0x81);
    m.execute_instruction(Instruction::ShiftLeft(0), 0, 0).unwrap();
    assert_eq!(m.get_register_value(0), 0x02);
    assert_eq!(m.get_register_value(15), 1);
    m.execute_instruction(Instruction::ShiftLeft(0), 0, 0).unwrap();
    assert_eq!(m.get_register_value(0), 0x04);
    assert_eq!(m.get_register_value(15), 0);
}

#[test]
fn addk_wraps_without_flag() {
    let mut m = Chip8::new();
    m.set_register_value(7, 0xFF);
    m.set_register_value(15, 0x55);
    m.execute_instruction(Instruction::AddK(7, 2), 0, 0).unwrap();
    assert_eq!(m.get_register_value(7), 1);
    // AddK never touches the flag register.
    assert_eq!(m.get_register_value(15), 0x55);
}

#[test]
fn bitwise_logic() {
    let mut m = Chip8::new();
    m.set_register_value(0, 0b1100);
    m.set_register_value(1, 0b1010);
    m.execute_instruction(Instruction::Or(0, 1), 0, 0).unwrap();
    assert_eq!(m.get_register_value(0), 0b1110);
    m.set_register_value(0, 0b1100);
    m.execute_instruction(Instruction::And(0, 1), 0, 0).unwrap();
    assert_eq!(m.get_register_value(0), 0b1000);
    m.set_register_value(0, 0b1100);
    m.execute_instruction(Instruction::XOr(0, 1), 0, 0).unwrap();
    assert_eq!(m.get_register_value(0), 0b0110);
}

#[test]
fn bcd_store_writes_three_digits() {
    let mut m = Chip8::new();
    m.set_register_value(4, 234);
    m.execute_instruction(Instruction::LoadI(0x300), 0, 0).unwrap();
    m.execute_instruction(Instruction::StoreBCD(4), 0, 0).unwrap();
    assert_eq!(m.get_byte_from_memory(0x300), 2);
    assert_eq!(m.get_byte_from_memory(0x301), 3);
    assert_eq!(m.get_byte_from_memory(0x302), 4);
}

#[test]
fn store_and_load_registers_roundtrip() {
    let mut m = Chip8::new();
    for x in 0..4 {
        m.set_register_value(x, 10 + x);
    }
    m.execute_instruction(Instruction::LoadI(0x400), 0, 0).unwrap();
    m.execute_instruction(Instruction::StoreRegisters(3), 0, 0).unwrap();
    for x in 0..4u16 {
        assert_eq!(m.get_byte_from_memory(0x400 + x), 10 + x as u8);
    }
    // V4 was not stored.
    assert_eq!(m.get_byte_from_memory(0x404), 0);
    for x in 0..4 {
        m.set_register_value(x, 0);
    }
    m.execute_instruction(Instruction::LoadRegisters(3), 0, 0).unwrap();
    for x in 0..4 {
        assert_eq!(m.get_register_value(x), 10 + x);
    }
}

#[test]
fn hex_glyph_points_index_at_font() {
    let mut m = Chip8::new();
    // I := VA * 5 = 50, the glyph for digit 10 (A); probe I with a BCD
    // store of the value 0.
    m.set_register_value(0xA, 10);
    m.execute_instruction(Instruction::LoadHexGlyph(0xA), 0, 0).unwrap();
    m.set_register_value(0, 0);
    m.execute_instruction(Instruction::StoreBCD(0), 0, 0).unwrap();
    // Addresses 50..=52 (glyph A's first rows) were overwritten with 0.
    assert_eq!(m.get_byte_from_memory(50), 0);
    assert_eq!(m.get_byte_from_memory(51), 0);
    assert_eq!(m.get_byte_from_memory(52), 0);
    // Address 53 keeps glyph A's fourth byte.
    assert_eq!(m.get_byte_from_memory(53), 0x90);
}

#[test]
fn add_to_i_accumulates() {
    let mut m = Chip8::new();
    m.execute_instruction(Instruction::LoadI(0x300), 0, 0).unwrap();
    m.set_register_value(0, 3);
    m.execute_instruction(Instruction::AddToI(0), 0, 0).unwrap();
    m.set_register_value(1, 0x42);
    m.execute_instruction(Instruction::StoreRegisters(1), 0, 0).unwrap();
    // V0 and V1 land at 0x303 and 0x304.
    assert_eq!(m.get_byte_from_memory(0x303), 3);
    assert_eq!(m.get_byte_from_memory(0x304), 0x42);
}

#[test]
fn get_timer_reads_delay_after_tick() {
    let mut m = Chip8::new();
    // V0 = 9; delay := V0; V1 := delay.
    m.load_rom(vec![0x60, 0x09, 0xF0, 0x15, 0xF1, 0x07]).unwrap();
    for _ in 0..3 {
        m.execute_cycle(|| 0).unwrap();
    }
    // The delay timer ticked once between the set and the read.
    assert_eq!(m.get_register_value(1), 8);
}
