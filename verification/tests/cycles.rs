use chip8::error::ErrorKind;
use chip8::instruction::Instruction;
use chip8::machine::Chip8;

#[test]
fn clear_display_blanks_everything() {
    let mut m = Chip8::new();
    // Draw the font glyph for 0 (I starts at 0) at the origin, then CLS.
    m.execute_instruction(Instruction::Draw(0, 1, 5), 0, 0).unwrap();
    assert!(m.get_display_buffer()[0][0]);
    m.execute_instruction(Instruction::ClearDisplay, 0, 0).unwrap();
    let d = m.get_display_buffer();
    assert!(d.iter().all(|row| row.iter().all(|p| !p)));
}

#[test]
fn draw_glyph_and_collision_on_second_draw() {
    let mut m = Chip8::new();
    let before = m.get_display_buffer();
    // I = 0: the glyph for digit 0 (0xF0 0x90 0x90 0x90 0xF0).
    m.execute_instruction(Instruction::Draw(0, 1, 5), 0, 0).unwrap();
    let d = m.get_display_buffer();
    // Top row: 0xF0 lights the four leftmost pixels.
    assert!(d[0][0] && d[0][1] && d[0][2] && d[0][3]);
    assert!(!d[0][4]);
    // Second row: 0x90 lights columns 0 and 3.
    assert!(d[1][0] && !d[1][1] && !d[1][2] && d[1][3]);
    assert_eq!(m.get_register_value(15), 0);
    // The same sprite drawn again toggles every touched pixel back and
    // reports the collision.
    m.execute_instruction(Instruction::Draw(0, 1, 5), 0, 0).unwrap();
    assert_eq!(m.get_register_value(15), 1);
    assert_eq!(m.get_display_buffer(), before);
}

#[test]
fn draw_clips_at_both_edges() {
    let mut m = Chip8::new();
    m.set_register_value(0, 62);
    m.set_register_value(1, 30);
    m.execute_instruction(Instruction::Draw(0, 1, 5), 0, 0).unwrap();
    let d = m.get_display_buffer();
    // Only the top-left 2x2 corner of the glyph fits: rows 30..=31,
    // columns 62..=63.
    assert!(d[30][62] && d[30][63]);
    assert!(d[31][62] && !d[31][63]);
    // No horizontal wrap onto column 0, no vertical wrap onto row 0.
    assert!(!d[30][0] && !d[30][1]);
    assert!(!d[0][62] && !d[0][63]);
}

#[test]
fn call_then_return_resumes_after_call() {
    let mut m = Chip8::new();
    // 0x200: CALL 0x204; 0x202: V0 := 7; 0x204: RET.
    m.load_rom(vec![0x22, 0x04, 0x60, 0x07, 0x00, 0xEE]).unwrap();
    m.execute_cycle(|| 0).unwrap();
    assert_eq!(m.get_register_value(0), 0);
    m.execute_cycle(|| 0).unwrap();
    // The return landed just past the call: the next cycle runs 0x202.
    m.execute_cycle(|| 0).unwrap();
    assert_eq!(m.get_register_value(0), 7);
    // The stack is empty again: a further return underflows.
    m.execute_instruction(Instruction::Return, 0, 0).unwrap_err();
}

#[test]
fn return_on_empty_stack_reports_underflow() {
    let mut m = Chip8::new();
    m.load_rom(vec![0x00, 0xEE]).unwrap();
    assert_eq!(m.execute_cycle(|| 0), Err(ErrorKind::StackUnderflow));
    // The machine is untouched and can still run.
    assert_eq!(m.get_register_value(0), 0);
}

#[test]
fn call_past_sixteen_levels_reports_overflow() {
    let mut m = Chip8::new();
    // 0x200: CALL 0x200, forever.
    m.load_rom(vec![0x22, 0x00]).unwrap();
    for _ in 0..16 {
        m.execute_cycle(|| 0).unwrap();
    }
    assert_eq!(m.execute_cycle(|| 0), Err(ErrorKind::StackOverflow));
}

#[test]
fn invalid_opcode_cycle_reports_the_word() {
    let mut m = Chip8::new();
    m.load_rom(vec![0x50, 0x01]).unwrap();
    assert_eq!(m.execute_cycle(|| 0), Err(ErrorKind::InvalidOpcode(0x5001)));
}

#[test]
fn long_jump_is_not_implemented() {
    let mut m = Chip8::new();
    m.load_rom(vec![0xB2, 0x00]).unwrap();
    assert_eq!(m.execute_cycle(|| 0), Err(ErrorKind::InvalidOpcode(0xB200)));
}

#[test]
fn key_wait_stores_provided_key() {
    let mut m = Chip8::new();
    // LD V0, K with a provider that answers at once.
    m.load_rom(vec![0xF0, 0x0A]).unwrap();
    let mut calls = 0u32;
    m.execute_cycle(|| {
        calls += 1;
        0xA
    })
    .unwrap();
    assert_eq!(m.get_register_value(0), 0xA);
    assert_eq!(calls, 1);
}

#[test]
fn key_wait_provider_unused_elsewhere() {
    let mut m = Chip8::new();
    // A plain register load never consults the provider.
    m.load_rom(vec![0x60, 0x01]).unwrap();
    m.execute_cycle(|| panic!("provider consulted")).unwrap();
    assert_eq!(m.get_register_value(0), 1);
}

#[test]
fn random_with_zero_mask_yields_zero() {
    let mut m = Chip8::new();
    m.set_register_value(3, 0xEE);
    // RND V3, 0x00: whatever byte was drawn, the mask clears it.
    m.load_rom(vec![0xC3, 0x00]).unwrap();
    m.execute_cycle(|| 0).unwrap();
    assert_eq!(m.get_register_value(3), 0);
}

#[test]
fn skip_if_pressed_takes_key_from_register() {
    let mut m = Chip8::new();
    m.set_key(5, true).unwrap();
    // V0 := 5; skip next if key V0 pressed; V1 := 1 (skipped); V2 := 2.
    m.load_rom(vec![0x60, 0x05, 0xE0, 0x9E, 0x61, 0x01, 0x62, 0x02]).unwrap();
    for _ in 0..3 {
        m.execute_cycle(|| 0).unwrap();
    }
    assert_eq!(m.get_register_value(1), 0);
    assert_eq!(m.get_register_value(2), 2);
}

#[test]
fn skip_if_pressed_falls_through_when_released() {
    let mut m = Chip8::new();
    m.load_rom(vec![0x60, 0x05, 0xE0, 0x9E, 0x61, 0x01, 0x62, 0x02]).unwrap();
    for _ in 0..3 {
        m.execute_cycle(|| 0).unwrap();
    }
    assert_eq!(m.get_register_value(1), 1);
    assert_eq!(m.get_register_value(2), 0);
}

#[test]
fn skip_equal_and_not_equal_immediates() {
    let mut m = Chip8::new();
    // V0 := 7; skip next if V0 == 7; V1 := 1 (skipped); V2 := 2.
    m.load_rom(vec![0x60, 0x07, 0x30, 0x07, 0x61, 0x01, 0x62, 0x02]).unwrap();
    for _ in 0..3 {
        m.execute_cycle(|| 0).unwrap();
    }
    assert_eq!(m.get_register_value(1), 0);
    assert_eq!(m.get_register_value(2), 2);

    let mut m2 = Chip8::new();
    // V0 := 7; skip next if V0 != 8 (it is not 8, so skip).
    m2.load_rom(vec![0x60, 0x07, 0x40, 0x08, 0x61, 0x01, 0x62, 0x02]).unwrap();
    for _ in 0..3 {
        m2.execute_cycle(|| 0).unwrap();
    }
    assert_eq!(m2.get_register_value(1), 0);
    assert_eq!(m2.get_register_value(2), 2);
}

#[test]
fn jump_redirects_execution() {
    let mut m = Chip8::new();
    // 0x200: JP 0x204; 0x202: V0 := 1 (never runs); 0x204: V1 := 2.
    m.load_rom(vec![0x12, 0x04, 0x60, 0x01, 0x61, 0x02]).unwrap();
    m.execute_cycle(|| 0).unwrap();
    m.execute_cycle(|| 0).unwrap();
    assert_eq!(m.get_register_value(0), 0);
    assert_eq!(m.get_register_value(1), 2);
}

#[test]
fn sound_timer_beeps_once_at_one() {
    let mut m = Chip8::new();
    // V0 := 2; sound := V0; then an idle jump-to-self.
    m.load_rom(vec![0x60, 0x02, 0xF0, 0x18, 0x12, 0x04]).unwrap();
    let out1 = m.execute_cycle(|| 0).unwrap();
    assert!(!out1.beep);
    // Sound timer becomes 2, then ticks to 1 at this cycle's end.
    let out2 = m.execute_cycle(|| 0).unwrap();
    assert!(!out2.beep);
    // The timer stands at 1: this cycle sounds the tone and drops it to 0.
    let out3 = m.execute_cycle(|| 0).unwrap();
    assert!(out3.beep);
    let out4 = m.execute_cycle(|| 0).unwrap();
    assert!(!out4.beep);
}
