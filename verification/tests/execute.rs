use chip8::chip8::{Chip8, Chip8Error};

fn run(program: &[u8], cycles: usize) -> Chip8 {
    let mut chip = Chip8::new(program).unwrap();
    for _ in 0..cycles {
        chip.cycle().unwrap();
    }
    chip
}

#[test]
fn program_too_large_is_rejected() {
    let image = vec![0u8; 4096 - 0x200 + 1];
    assert_eq!(Chip8::new(&image).err(), Some(Chip8Error::ProgramTooLarge));
    let image = vec![0u8; 4096 - 0x200];
    assert!(Chip8::new(&image).is_ok());
}

#[test]
fn fresh_machine_has_zeroed_registers_and_font() {
    let mut chip = Chip8::new(&[]).unwrap();
    for idx in 0..16 {
        assert_eq!(chip.read_register(idx), 0);
    }
    assert_eq!(chip.sound_timer(), 0);
    // The first font glyph starts at address zero: load V0..V1 from I = 0.
    let program = [0xF1, 0x65];
    chip = run(&program, 1);
    assert_eq!(chip.read_register(0), 0xF0);
    assert_eq!(chip.read_register(1), 0x90);
}

#[test]
fn add_with_carry_wraps_modulo_256() {
    // V0 = 0xFF, V1 = 0x01, V0 += V1.
    let program = [0x60, 0xFF, 0x61, 0x01, 0x80, 0x14];
    let chip = run(&program, 3);
    assert_eq!(chip.read_register(0), 0x00);
    assert_eq!(chip.read_register(0xF), 1);
}

#[test]
fn add_without_carry_clears_flag() {
    let program = [0x60, 0x10, 0x61, 0x01, 0x6F, 0x01, 0x80, 0x14];
    let chip = run(&program, 4);
    assert_eq!(chip.read_register(0), 0x11);
    assert_eq!(chip.read_register(0xF), 0);
}

#[test]
fn add_byte_wraps_without_touching_flag() {
    let program = [0x60, 0xFF, 0x70, 0x02];
    let chip = run(&program, 2);
    assert_eq!(chip.read_register(0), 0x01);
    assert_eq!(chip.read_register(0xF), 0);
}

#[test]
fn sub_sets_flag_exactly_when_no_borrow() {
    // V0 = 5, V1 = 7: borrow, flag 0, wrapped result.
    let program = [0x60, 0x05, 0x61, 0x07, 0x80, 0x15];
    let chip = run(&program, 3);
    assert_eq!(chip.read_register(0), 254);
    assert_eq!(chip.read_register(0xF), 0);
    // Equal operands: no borrow, flag 1, result 0.
    let program = [0x60, 0x07, 0x61, 0x07, 0x80, 0x15];
    let chip = run(&program, 3);
    assert_eq!(chip.read_register(0), 0);
    assert_eq!(chip.read_register(0xF), 1);
}

#[test]
fn reverse_sub_sets_flag_exactly_when_no_borrow() {
    // V0 = 1, V1 = 5: V0 = V1 - V0 = 4, no borrow.
    let program = [0x60, 0x01, 0x61, 0x05, 0x80, 0x17];
    let chip = run(&program, 3);
    assert_eq!(chip.read_register(0), 4);
    assert_eq!(chip.read_register(0xF), 1);
    // V0 = 5, V1 = 1: borrow.
    let program = [0x60, 0x05, 0x61, 0x01, 0x80, 0x17];
    let chip = run(&program, 3);
    assert_eq!(chip.read_register(0), 252);
    assert_eq!(chip.read_register(0xF), 0);
}

#[test]
fn shifts_capture_shifted_out_bit_in_flag() {
    // VF starts dirty (0x33) and must be overwritten by the shifted-out bit.
    let program = [0x60, 0x05, 0x6F, 0x33, 0x80, 0x06];
    let chip = run(&program, 3);
    assert_eq!(chip.read_register(0), 2);
    assert_eq!(chip.read_register(0xF), 1);
    let program = [0x60, 0x81, 0x6F, 0x33, 0x80, 0x0E];
    let chip = run(&program, 3);
    assert_eq!(chip.read_register(0), 0x02);
    assert_eq!(chip.read_register(0xF), 1);
}

#[test]
fn bitwise_and_move_instructions() {
    let program = [0x60, 0x0C, 0x61, 0x0A, 0x80, 0x11];
    assert_eq!(run(&program, 3).read_register(0), 0x0E);
    let program = [0x60, 0x0C, 0x61, 0x0A, 0x80, 0x12];
    assert_eq!(run(&program, 3).read_register(0), 0x08);
    let program = [0x60, 0x0C, 0x61, 0x0A, 0x80, 0x13];
    assert_eq!(run(&program, 3).read_register(0), 0x06);
    let program = [0x60, 0x0C, 0x61, 0x0A, 0x80, 0x10];
    assert_eq!(run(&program, 3).read_register(0), 0x0A);
}

#[test]
fn skip_if_equals_byte_skips_only_on_match() {
    // V0 == 0 so the skip is taken and V1 is never loaded.
    let program = [0x30, 0x00, 0x61, 0x11, 0x62, 0x22];
    let chip = run(&program, 2);
    assert_eq!(chip.read_register(1), 0x00);
    assert_eq!(chip.read_register(2), 0x22);
    // V0 != 5 so execution falls through and V1 is loaded.
    let program = [0x30, 0x05, 0x61, 0x11, 0x62, 0x22];
    let chip = run(&program, 3);
    assert_eq!(chip.read_register(1), 0x11);
    assert_eq!(chip.read_register(2), 0x22);
}

#[test]
fn register_compare_skips() {
    // V0 == V1 == 7: 5xy0 skips.
    let program = [0x60, 0x07, 0x61, 0x07, 0x50, 0x10, 0x62, 0x22, 0x63, 0x33];
    let chip = run(&program, 4);
    assert_eq!(chip.read_register(2), 0x00);
    assert_eq!(chip.read_register(3), 0x33);
    // V0 != V1: 9xy0 skips.
    let program = [0x60, 0x07, 0x61, 0x08, 0x90, 0x10, 0x62, 0x22, 0x63, 0x33];
    let chip = run(&program, 4);
    assert_eq!(chip.read_register(2), 0x00);
    assert_eq!(chip.read_register(3), 0x33);
}

#[test]
fn jump_and_jump_plus_zero() {
    // Jump over the middle instruction.
    let program = [0x12, 0x04, 0x61, 0x11, 0x62, 0x22];
    let chip = run(&program, 2);
    assert_eq!(chip.read_register(1), 0x00);
    assert_eq!(chip.read_register(2), 0x22);
    // V0 = 4; Bnnn jumps to 0x202 + 4 = 0x206.
    let program = [0x60, 0x04, 0xB2, 0x02, 0x61, 0x11, 0x65, 0x55];
    let chip = run(&program, 3);
    assert_eq!(chip.read_register(1), 0x00);
    assert_eq!(chip.read_register(5), 0x55);
}

#[test]
fn call_then_return_resumes_after_call() {
    // Call 0x204; the subroutine returns; execution resumes at 0x202.
    let program = [0x22, 0x04, 0x61, 0x42, 0x00, 0xEE];
    let chip = run(&program, 3);
    assert_eq!(chip.read_register(1), 0x42);
}

#[test]
fn stack_overflow_after_sixteen_nested_calls() {
    // 0x200 calls itself forever.
    let program = [0x22, 0x00];
    let mut chip = Chip8::new(&program).unwrap();
    for _ in 0..16 {
        chip.cycle().unwrap();
    }
    assert_eq!(chip.cycle(), Err(Chip8Error::StackOverflow));
}

#[test]
fn return_with_empty_stack_underflows() {
    let program = [0x00, 0xEE];
    let mut chip = Chip8::new(&program).unwrap();
    assert_eq!(chip.cycle(), Err(Chip8Error::StackUnderflow));
}

#[test]
fn undefined_opcode_is_fatal() {
    let program = [0x50, 0x01];
    let mut chip = Chip8::new(&program).unwrap();
    assert_eq!(chip.cycle(), Err(Chip8Error::InvalidOpcode));
}

#[test]
fn sprite_read_past_memory_end_is_fatal() {
    // I = 0xFFF, draw two sprite rows: reaches past the last byte.
    let program = [0xAF, 0xFF, 0xD0, 0x02];
    let mut chip = Chip8::new(&program).unwrap();
    chip.cycle().unwrap();
    assert_eq!(chip.cycle(), Err(Chip8Error::MemoryOutOfBounds));
}

#[test]
fn bcd_past_memory_end_is_fatal() {
    let program = [0xAF, 0xFF, 0xF0, 0x33];
    let mut chip = Chip8::new(&program).unwrap();
    chip.cycle().unwrap();
    assert_eq!(chip.cycle(), Err(Chip8Error::MemoryOutOfBounds));
}

#[test]
fn program_counter_past_memory_end_is_fatal() {
    let program = [0x1F, 0xFF];
    let mut chip = Chip8::new(&program).unwrap();
    chip.cycle().unwrap();
    assert_eq!(chip.cycle(), Err(Chip8Error::MemoryOutOfBounds));
}

#[test]
fn bcd_writes_decimal_digits() {
    // V0 = 157; I = 0x300; BCD; read the three digits back into V0..V2.
    let program = [0x60, 0x9D, 0xA3, 0x00, 0xF0, 0x33, 0xF2, 0x65];
    let chip = run(&program, 4);
    assert_eq!(chip.read_register(0), 1);
    assert_eq!(chip.read_register(1), 5);
    assert_eq!(chip.read_register(2), 7);
}

#[test]
fn store_and_load_registers_round_trip() {
    let program = [
        0x60, 0x01, // V0 = 1
        0x61, 0x02, // V1 = 2
        0x62, 0x03, // V2 = 3
        0xA4, 0x00, // I = 0x400
        0xF2, 0x55, // store V0..V2
        0x60, 0x00, // clobber V0
        0x61, 0x00, // clobber V1
        0x62, 0x00, // clobber V2
        0xF2, 0x65, // load V0..V2 back
    ];
    let chip = run(&program, 9);
    assert_eq!(chip.read_register(0), 1);
    assert_eq!(chip.read_register(1), 2);
    assert_eq!(chip.read_register(2), 3);
}

#[test]
fn add_to_index_moves_the_block_window() {
    // I = 0x400 + 2 after AddToI; BCD of V3 = 9 lands at 0x402..0x404,
    // and the block load from I reads the digits back.
    let program = [
        0xA4, 0x00, // I = 0x400
        0x60, 0x02, // V0 = 2
        0xF0, 0x1E, // I += V0
        0x63, 0x09, // V3 = 9
        0xF3, 0x33, // BCD of V3 at I
        0xF2, 0x65, // V0..V2 = memory[I..I+3]
    ];
    let chip = run(&program, 6);
    assert_eq!(chip.read_register(0), 0);
    assert_eq!(chip.read_register(1), 0);
    assert_eq!(chip.read_register(2), 9);
}

#[test]
fn load_sprite_points_at_font_glyph() {
    // V0 = 2: I = 10, the glyph for digit 2; draw it at (0, 0).
    let program = [0x60, 0x02, 0xF0, 0x29, 0xD1, 0x15];
    let chip = run(&program, 3);
    // Glyph 2 rows: F0 10 F0 80 F0.
    assert!(chip.display.pixel(0, 0));
    assert!(chip.display.pixel(3, 0));
    assert!(!chip.display.pixel(4, 0));
    assert!(!chip.display.pixel(0, 1));
    assert!(chip.display.pixel(3, 1));
    assert!(chip.display.pixel(0, 2));
    assert!(chip.display.pixel(0, 4));
    assert!(chip.display.pixel(3, 4));
}

#[test]
fn draw_reports_collision_in_flag_register() {
    // Draw the same glyph twice at the same spot: second draw collides
    // and erases it.
    let program = [0xF0, 0x29, 0xD1, 0x15, 0xD1, 0x15];
    let chip = run(&program, 3);
    assert_eq!(chip.read_register(0xF), 1);
    assert!(!chip.display.pixel(0, 0));
}

#[test]
fn clear_display_instruction_empties_the_buffer() {
    let program = [0xF0, 0x29, 0xD1, 0x15, 0x00, 0xE0];
    let chip = run(&program, 3);
    assert!(!chip.display.pixel(0, 0));
    assert_eq!(chip.read_register(0xF), 0);
}

#[test]
fn random_masks_with_immediate() {
    let program = [0xC0, 0x0F, 0xC1, 0x00];
    let chip = run(&program, 2);
    assert!(chip.read_register(0) < 16);
    assert_eq!(chip.read_register(1), 0);
}

#[test]
fn key_skips_follow_keyboard_state() {
    let program = [0x60, 0x04, 0xE0, 0x9E, 0x61, 0x11, 0x62, 0x22];
    let mut chip = Chip8::new(&program).unwrap();
    chip.handle_key_down(4);
    for _ in 0..3 {
        chip.cycle().unwrap();
    }
    // Key 4 held: the skip jumps over the V1 load.
    assert_eq!(chip.read_register(1), 0x00);
    assert_eq!(chip.read_register(2), 0x22);

    let mut chip = Chip8::new(&program).unwrap();
    chip.handle_key_down(4);
    chip.handle_key_up(4);
    for _ in 0..3 {
        chip.cycle().unwrap();
    }
    // Key released again: no skip.
    assert_eq!(chip.read_register(1), 0x11);
}

#[test]
fn skip_if_not_pressed_takes_skip_when_key_is_up() {
    let program = [0x60, 0x04, 0xE0, 0xA1, 0x61, 0x11, 0x62, 0x22];
    let chip = run(&program, 3);
    assert_eq!(chip.read_register(1), 0x00);
    assert_eq!(chip.read_register(2), 0x22);
}

#[test]
fn key_test_with_out_of_range_register_value_never_matches() {
    // V0 = 0x20 names no key, so "pressed" is false whatever is held.
    let program = [0x60, 0x20, 0xE0, 0x9E, 0x61, 0x11];
    let mut chip = Chip8::new(&program).unwrap();
    chip.handle_key_down(0);
    for _ in 0..3 {
        chip.cycle().unwrap();
    }
    assert_eq!(chip.read_register(1), 0x11);
}

#[test]
fn wait_for_keypress_suspends_until_key_down() {
    let program = [0xF0, 0x0A, 0x61, 0x42];
    let mut chip = Chip8::new(&program).unwrap();
    chip.cycle().unwrap();
    // Waiting: further steps are no-ops and change nothing.
    for _ in 0..5 {
        chip.cycle().unwrap();
        assert_eq!(chip.read_register(1), 0x00);
    }
    chip.handle_key_down(9);
    assert_eq!(chip.read_register(0), 9);
    // The wait is resolved: the next step proceeds normally.
    chip.cycle().unwrap();
    assert_eq!(chip.read_register(1), 0x42);
}

#[test]
fn timers_tick_down_and_floor_at_zero() {
    // delay = 5, sound = 2.
    let program = [0x60, 0x05, 0xF0, 0x15, 0x61, 0x02, 0xF1, 0x18];
    let mut chip = Chip8::new(&program).unwrap();
    for _ in 0..4 {
        chip.cycle().unwrap();
    }
    assert_eq!(chip.sound_timer(), 2);
    chip.decrement_timers();
    assert_eq!(chip.sound_timer(), 1);
    chip.decrement_timers();
    assert_eq!(chip.sound_timer(), 0);
    // Ticking with a timer already at zero leaves it at zero.
    for _ in 0..10 {
        chip.decrement_timers();
    }
    assert_eq!(chip.sound_timer(), 0);
}

#[test]
fn delay_timer_reads_back_through_register() {
    let program = [0x60, 0x05, 0xF0, 0x15, 0xF1, 0x07];
    let mut chip = Chip8::new(&program).unwrap();
    chip.cycle().unwrap();
    chip.cycle().unwrap();
    chip.decrement_timers();
    chip.decrement_timers();
    chip.cycle().unwrap();
    assert_eq!(chip.read_register(1), 3);
}
