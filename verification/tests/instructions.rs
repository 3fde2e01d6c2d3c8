use ilaichi_chip8::model::{EmuError, RunMode};
use ilaichi_chip8::Emulator;

fn boot(rom: &[u8]) -> Emulator {
    let mut e = Emulator::new();
    e.load(&rom.to_vec()).unwrap();
    e
}

fn run(e: &mut Emulator, steps: usize) {
    for _ in 0..steps {
        e.tick().unwrap();
    }
}

#[test]
fn store_immediate_sets_register_and_advances() {
    let mut e = boot(&[0x60, 0x2A]);
    assert_eq!(e.pc, 0x200);
    e.tick().unwrap();
    assert_eq!(e.register(0), 42);
    assert_eq!(e.pc, 0x202);
}

#[test]
fn add_with_carry_sets_flag_and_wraps() {
    let mut e = boot(&[0x60, 0xFF, 0x61, 0x02, 0x80, 0x14]);
    run(&mut e, 3);
    assert_eq!(e.register(0), 1);
    assert_eq!(e.register(0xF), 1);
}

#[test]
fn add_without_carry_clears_flag() {
    let mut e = boot(&[0x60, 0x10, 0x61, 0x02, 0x80, 0x14]);
    run(&mut e, 3);
    assert_eq!(e.register(0), 0x12);
    assert_eq!(e.register(0xF), 0);
}

#[test]
fn sub_without_borrow_sets_flag() {
    let mut e = boot(&[0x60, 0x05, 0x61, 0x03, 0x80, 0x15]);
    run(&mut e, 3);
    assert_eq!(e.register(0), 2);
    assert_eq!(e.register(0xF), 1);
}

#[test]
fn sub_with_borrow_clears_flag_and_wraps() {
    let mut e = boot(&[0x60, 0x03, 0x61, 0x05, 0x80, 0x15]);
    run(&mut e, 3);
    assert_eq!(e.register(0), 254);
    assert_eq!(e.register(0xF), 0);
}

#[test]
fn sub_equal_values_counts_as_no_borrow() {
    let mut e = boot(&[0x60, 0x07, 0x61, 0x07, 0x80, 0x15]);
    run(&mut e, 3);
    assert_eq!(e.register(0), 0);
    assert_eq!(e.register(0xF), 1);
}

#[test]
fn alu_or_and_xor() {
    let mut e = boot(&[0x60, 0x0C, 0x61, 0x0A, 0x80, 0x11]);
    run(&mut e, 3);
    assert_eq!(e.register(0), 0x0E);
    let mut e = boot(&[0x60, 0x0C, 0x61, 0x0A, 0x80, 0x12]);
    run(&mut e, 3);
    assert_eq!(e.register(0), 0x08);
    let mut e = boot(&[0x60, 0x0C, 0x61, 0x0A, 0x80, 0x13]);
    run(&mut e, 3);
    assert_eq!(e.register(0), 0x06);
}

#[test]
fn alu_copy_register() {
    let mut e = boot(&[0x61, 0x55, 0x80, 0x10]);
    run(&mut e, 2);
    assert_eq!(e.register(0), 0x55);
}

#[test]
fn shift_right_reports_low_bit() {
    let mut e = boot(&[0x60, 0x07, 0x80, 0x06]);
    run(&mut e, 2);
    assert_eq!(e.register(0), 3);
    assert_eq!(e.register(0xF), 1);
}

#[test]
fn shift_left_reports_high_bit() {
    let mut e = boot(&[0x60, 0x81, 0x80, 0x0E]);
    run(&mut e, 2);
    assert_eq!(e.register(0), 2);
    assert_eq!(e.register(0xF), 1);
}

#[test]
fn reverse_sub_uses_y_minus_x() {
    let mut e = boot(&[0x60, 0x01, 0x61, 0x05, 0x80, 0x17]);
    run(&mut e, 3);
    assert_eq!(e.register(0), 4);
    assert_eq!(e.register(0xF), 1);
}

#[test]
fn add_immediate_wraps_without_flag() {
    let mut e = boot(&[0x60, 0xFF, 0x70, 0x01]);
    run(&mut e, 2);
    assert_eq!(e.register(0), 0);
    assert_eq!(e.register(0xF), 0);
}

#[test]
fn jump_sets_program_counter() {
    let mut e = boot(&[0x13, 0x00]);
    e.tick().unwrap();
    assert_eq!(e.pc, 0x300);
}

#[test]
fn jump_with_offset_adds_register_zero() {
    let mut e = boot(&[0x60, 0x08, 0xB3, 0x00]);
    run(&mut e, 2);
    assert_eq!(e.pc, 0x308);
}

#[test]
fn skip_if_equal_immediate() {
    let mut e = boot(&[0x30, 0x00]);
    e.tick().unwrap();
    assert_eq!(e.pc, 0x204);
    let mut e = boot(&[0x30, 0x01]);
    e.tick().unwrap();
    assert_eq!(e.pc, 0x202);
}

#[test]
fn skip_if_not_equal_immediate() {
    let mut e = boot(&[0x40, 0x01]);
    e.tick().unwrap();
    assert_eq!(e.pc, 0x204);
}

#[test]
fn skip_on_register_comparison() {
    let mut e = boot(&[0x50, 0x10]);
    e.tick().unwrap();
    assert_eq!(e.pc, 0x204);
    let mut e = boot(&[0x60, 0x01, 0x90, 0x10]);
    run(&mut e, 2);
    assert_eq!(e.pc, 0x206);
}

#[test]
fn set_index_register() {
    let mut e = boot(&[0xA1, 0x23]);
    e.tick().unwrap();
    assert_eq!(e.index_register(), 0x123);
}

#[test]
fn add_to_index_register() {
    let mut e = boot(&[0x60, 0x05, 0xA1, 0x00, 0xF0, 0x1E]);
    run(&mut e, 3);
    assert_eq!(e.index_register(), 0x105);
}

#[test]
fn font_address_of_glyph_a() {
    let mut e = boot(&[0x60, 0x0A, 0xF0, 0x29]);
    run(&mut e, 2);
    assert_eq!(e.index_register(), 50);
}

#[test]
fn bcd_of_255_writes_two_five_five() {
    let mut e = boot(&[0x60, 0xFF, 0xA3, 0x00, 0xF0, 0x33]);
    run(&mut e, 3);
    assert_eq!(e.memory_at(0x300), 2);
    assert_eq!(e.memory_at(0x301), 5);
    assert_eq!(e.memory_at(0x302), 5);
}

#[test]
fn bcd_of_single_digit() {
    let mut e = boot(&[0x60, 0x07, 0xA3, 0x00, 0xF0, 0x33]);
    run(&mut e, 3);
    assert_eq!(e.memory_at(0x300), 0);
    assert_eq!(e.memory_at(0x301), 0);
    assert_eq!(e.memory_at(0x302), 7);
}

#[test]
fn store_block_writes_registers_zero_through_x() {
    let mut e = boot(&[0x60, 0x0A, 0x61, 0x0B, 0xA3, 0x00, 0xF1, 0x55]);
    run(&mut e, 4);
    assert_eq!(e.memory_at(0x300), 0x0A);
    assert_eq!(e.memory_at(0x301), 0x0B);
    assert_eq!(e.memory_at(0x302), 0);
}

#[test]
fn load_block_round_trips_through_memory() {
    let mut e = boot(&[0xA3, 0x00, 0x60, 0x07, 0xF0, 0x55, 0x60, 0x00, 0xF0, 0x65]);
    run(&mut e, 5);
    assert_eq!(e.register(0), 7);
}

#[test]
fn random_masked_with_zero_mask_is_zero() {
    let mut e = boot(&[0xC0, 0x00]);
    e.tick().unwrap();
    assert_eq!(e.register(0), 0);
}

#[test]
fn random_masked_stays_within_mask() {
    let mut e = boot(&[0xC0, 0x0F]);
    e.tick().unwrap();
    assert!(e.register(0) <= 0x0F);
}

#[test]
fn read_delay_timer_into_register() {
    let mut e = boot(&[0x62, 0x03, 0xF2, 0x15, 0xF3, 0x07]);
    run(&mut e, 3);
    assert_eq!(e.register(3), 3);
    assert_eq!(e.delay_timer(), 3);
}

#[test]
fn unimplemented_opcode_is_surfaced() {
    let mut e = boot(&[0xFF, 0xFF]);
    assert_eq!(e.tick(), Err(EmuError::UnimplementedOpcode(0xFFFF)));
}

#[test]
fn unimplemented_variants_of_known_families() {
    let mut e = boot(&[0x50, 0x01]);
    assert_eq!(e.tick(), Err(EmuError::UnimplementedOpcode(0x5001)));
    let mut e = boot(&[0x80, 0x08]);
    assert_eq!(e.tick(), Err(EmuError::UnimplementedOpcode(0x8008)));
    let mut e = boot(&[0xE0, 0x00]);
    assert_eq!(e.tick(), Err(EmuError::UnimplementedOpcode(0xE000)));
    let mut e = boot(&[0xF0, 0x01]);
    assert_eq!(e.tick(), Err(EmuError::UnimplementedOpcode(0xF001)));
}

#[test]
fn wait_for_key_suspends_until_a_key_is_pressed() {
    let mut e = boot(&[0xF5, 0x0A]);
    e.tick().unwrap();
    assert_eq!(e.run_mode(), RunMode::WaitingForKey(5));
    assert_eq!(e.pc, 0x202);
    e.tick().unwrap();
    assert_eq!(e.run_mode(), RunMode::WaitingForKey(5));
    assert_eq!(e.pc, 0x202);
    e.key_down(9);
    e.tick().unwrap();
    assert_eq!(e.run_mode(), RunMode::Running);
    assert_eq!(e.register(5), 9);
    assert_eq!(e.pc, 0x202);
}

#[test]
fn wait_for_key_takes_lowest_pressed_key() {
    let mut e = boot(&[0xF0, 0x0A]);
    e.tick().unwrap();
    e.key_down(11);
    e.key_down(4);
    e.tick().unwrap();
    assert_eq!(e.register(0), 4);
}

#[test]
fn skip_if_key_pressed() {
    let mut e = boot(&[0x60, 0x07, 0xE0, 0x9E]);
    e.key_down(7);
    run(&mut e, 2);
    assert_eq!(e.pc, 0x206);
    let mut e = boot(&[0x60, 0x07, 0xE0, 0x9E]);
    run(&mut e, 2);
    assert_eq!(e.pc, 0x204);
}

#[test]
fn skip_if_key_not_pressed() {
    let mut e = boot(&[0x60, 0x07, 0xE0, 0xA1]);
    run(&mut e, 2);
    assert_eq!(e.pc, 0x206);
    let mut e = boot(&[0x60, 0x07, 0xE0, 0xA1]);
    e.key_down(7);
    run(&mut e, 2);
    assert_eq!(e.pc, 0x204);
}

#[test]
fn released_key_no_longer_skips() {
    let mut e = boot(&[0x60, 0x07, 0xE0, 0x9E]);
    e.key_down(7);
    e.key_up(7);
    run(&mut e, 2);
    assert_eq!(e.pc, 0x204);
}
