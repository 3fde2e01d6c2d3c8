use ilaichi_chip8::model::EmuError;
use ilaichi_chip8::{Emulator, SCREEN_HEIGHT, SCREEN_WIDTH};

fn boot(rom: &[u8]) -> Emulator {
    let mut e = Emulator::new();
    e.load(&rom.to_vec()).unwrap();
    e
}

fn run(e: &mut Emulator, steps: usize) {
    for _ in 0..steps {
        e.tick().unwrap();
    }
}

#[test]
fn new_machine_has_initial_state() {
    let e = Emulator::new();
    assert_eq!(e.pc, 0x200);
    assert_eq!(e.delay_timer(), 0);
    assert_eq!(e.sound_timer(), 0);
    assert_eq!(e.index_register(), 0);
    for i in 0..16 {
        assert_eq!(e.register(i), 0);
    }
    assert_eq!(e.framebuffer().len(), SCREEN_WIDTH * SCREEN_HEIGHT);
    assert!(e.framebuffer().iter().all(|p| !p));
    // the first and last bytes of the font table
    assert_eq!(e.memory_at(0), 0xF0);
    assert_eq!(e.memory_at(79), 0x80);
    // scratch space is zeroed
    assert_eq!(e.memory_at(80), 0);
    assert_eq!(e.memory_at(0x200), 0);
}

#[test]
fn reset_restores_initial_state() {
    let mut e = boot(&[0x60, 0x2A, 0xA3, 0x00]);
    run(&mut e, 2);
    e.reset();
    assert_eq!(e.pc, 0x200);
    assert_eq!(e.register(0), 0);
    assert_eq!(e.index_register(), 0);
    assert_eq!(e.memory_at(0x200), 0);
    assert_eq!(e.memory_at(0), 0xF0);
}

#[test]
fn load_rejects_rom_that_does_not_fit() {
    let mut e = Emulator::new();
    let rom = vec![0xABu8; 4096 - 0x200 + 1];
    assert_eq!(e.load(&rom), Err(EmuError::RomTooLarge));
    assert_eq!(e.pc, 0x200);
    assert_eq!(e.memory_at(0x200), 0);
}

#[test]
fn load_accepts_rom_that_exactly_fits() {
    let mut e = Emulator::new();
    let rom = vec![0xABu8; 4096 - 0x200];
    assert_eq!(e.load(&rom), Ok(()));
    assert_eq!(e.memory_at(0x200), 0xAB);
    assert_eq!(e.memory_at(4095), 0xAB);
}

#[test]
fn call_then_return_restores_program_counter() {
    let mut e = boot(&[0x22, 0x04, 0x00, 0x00, 0x00, 0xEE]);
    e.tick().unwrap();
    assert_eq!(e.pc, 0x204);
    e.tick().unwrap();
    assert_eq!(e.pc, 0x202);
}

#[test]
fn return_on_empty_stack_underflows() {
    let mut e = boot(&[0x00, 0xEE]);
    assert_eq!(e.tick(), Err(EmuError::StackUnderflow));
}

#[test]
fn seventeenth_nested_call_overflows() {
    let mut e = boot(&[0x22, 0x00]);
    for _ in 0..16 {
        assert_eq!(e.tick(), Ok(()));
    }
    assert_eq!(e.tick(), Err(EmuError::StackOverflow));
}

#[test]
fn clear_screen_unsets_every_cell() {
    // draw glyph 0 at the origin, then clear
    let mut e = boot(&[0x60, 0x00, 0xF0, 0x29, 0xD0, 0x05, 0x00, 0xE0]);
    run(&mut e, 3);
    assert!(e.framebuffer().iter().any(|p| *p));
    e.tick().unwrap();
    assert!(e.framebuffer().iter().all(|p| !p));
}

#[test]
fn draw_puts_sprite_bits_on_screen() {
    // glyph 0 is 0xF0 in its first row: four set cells at the origin row
    let mut e = boot(&[0x60, 0x00, 0xF0, 0x29, 0xD0, 0x05]);
    run(&mut e, 3);
    let fb = e.framebuffer();
    assert!(fb[0] && fb[1] && fb[2] && fb[3]);
    assert!(!fb[4]);
    // second row of glyph 0 is 0x90
    assert!(fb[64] && !fb[65] && !fb[66] && fb[67]);
    assert_eq!(e.register(0xF), 0);
}

#[test]
fn drawing_same_sprite_twice_clears_it_and_reports_collision() {
    let mut e = boot(&[0x60, 0x00, 0xF0, 0x29, 0xD0, 0x05, 0xD0, 0x05]);
    run(&mut e, 3);
    assert_eq!(e.register(0xF), 0);
    e.tick().unwrap();
    assert!(e.framebuffer().iter().all(|p| !p));
    assert_eq!(e.register(0xF), 1);
}

#[test]
fn draw_wraps_around_screen_edges() {
    // draw glyph 0 with its origin at the bottom-right corner
    let mut e = boot(&[0x60, 0x3E, 0x61, 0x1E, 0xA0, 0x00, 0xD0, 0x15]);
    run(&mut e, 4);
    let fb = e.framebuffer();
    // row 0x1E, columns 0x3E and 0x3F, then wrapping to columns 0 and 1
    assert!(fb[0x1E * 64 + 0x3E] && fb[0x1E * 64 + 0x3F]);
    assert!(fb[0x1E * 64] && fb[0x1E * 64 + 1]);
}

#[test]
fn timers_count_down_and_clamp_at_zero() {
    let mut e = boot(&[0x60, 0x05, 0xF0, 0x15]);
    run(&mut e, 2);
    assert_eq!(e.delay_timer(), 5);
    for expect in [4, 3, 2, 1, 0] {
        e.tick_timers();
        assert_eq!(e.delay_timer(), expect);
    }
    e.tick_timers();
    e.tick_timers();
    assert_eq!(e.delay_timer(), 0);
}

#[test]
fn audio_cue_fires_exactly_when_sound_timer_hits_silence() {
    let mut e = boot(&[0x60, 0x02, 0xF0, 0x18]);
    run(&mut e, 2);
    assert_eq!(e.sound_timer(), 2);
    assert!(!e.tick_timers());
    assert!(e.tick_timers());
    assert!(!e.tick_timers());
    assert_eq!(e.sound_timer(), 0);
}

#[test]
fn four_step_scenario() {
    let mut e = boot(&[0x00, 0xE0, 0x60, 0x05, 0x61, 0xFF, 0x71, 0x01, 0x00, 0x00]);
    run(&mut e, 4);
    assert!(e.framebuffer().iter().all(|p| !p));
    assert_eq!(e.register(0), 5);
    assert_eq!(e.register(1), 0);
    assert_eq!(e.pc, 0x208);
}

#[test]
fn out_of_range_key_indices_are_ignored() {
    let mut e = boot(&[0x60, 0x07, 0xE0, 0x9E]);
    e.key_down(20);
    run(&mut e, 2);
    assert_eq!(e.pc, 0x204);
}
