use chip8::engine::{MachineFault, StepEffect};
use chip8::lfsr::Lfsr;
use chip8::machine::{Chip8, FONT_START, HEIGHT, MEMORY_SIZE, PROGRAM_START, WIDTH};

fn loaded(rom: &[u8]) -> Chip8 {
    let mut chip8 = Chip8::new();
    chip8.load_rom(rom);
    chip8
}

fn run(chip8: &mut Chip8, rng: &mut Lfsr, steps: usize) {
    for _ in 0..steps {
        chip8.step(rng).expect("step succeeds");
    }
}

fn lit_pixels(chip8: &Chip8) -> usize {
    chip8.frame().iter().filter(|p| **p).count()
}

#[test]
fn init_memory() {
    drop(Chip8::new());
}

#[test]
fn initial_state() {
    let chip8 = Chip8::new();
    assert_eq!(chip8.pc(), 0x200);
    assert_eq!(chip8.index_register(), 0);
    for i in 0..16 {
        assert_eq!(chip8.register(i), 0);
    }
    assert_eq!(chip8.stack_depth(), 0);
    assert_eq!(chip8.delay_timer(), 0);
    assert_eq!(chip8.sound_timer(), 0);
    assert_eq!(lit_pixels(&chip8), 0);
    assert_eq!(chip8.frame().len(), WIDTH * HEIGHT);
    let digit_zero: Vec<u8> = (0x50..0x55).map(|a| chip8.memory_byte(a)).collect();
    assert_eq!(digit_zero, vec![0xF0, 0x90, 0x90, 0x90, 0xF0]);
    let digit_f: Vec<u8> = (0x9B..0xA0).map(|a| chip8.memory_byte(a)).collect();
    assert_eq!(digit_f, vec![0xF0, 0x80, 0xF0, 0x80, 0x80]);
    assert_eq!(chip8.memory_byte(FONT_START - 1), 0);
    assert_eq!(chip8.memory_byte(0xA0), 0);
    assert_eq!(chip8.memory_byte(PROGRAM_START), 0);
    assert_eq!(chip8.memory_byte(MEMORY_SIZE - 1), 0);
}

#[test]
fn load_rom_copies_bytes() {
    let chip8 = loaded(&[0x12, 0x34, 0x56]);
    assert_eq!(chip8.memory_byte(0x200), 0x12);
    assert_eq!(chip8.memory_byte(0x201), 0x34);
    assert_eq!(chip8.memory_byte(0x202), 0x56);
    assert_eq!(chip8.memory_byte(0x203), 0);
    assert_eq!(chip8.memory_byte(0x50), 0xF0);
    assert_eq!(chip8.pc(), 0x200);
}

#[test]
fn load_rom_fills_all_program_memory() {
    let rom = vec![0xAB; MEMORY_SIZE - PROGRAM_START];
    let chip8 = loaded(&rom);
    assert_eq!(chip8.memory_byte(PROGRAM_START), 0xAB);
    assert_eq!(chip8.memory_byte(MEMORY_SIZE - 1), 0xAB);
    assert_eq!(chip8.memory_byte(PROGRAM_START - 1), 0);
}

#[test]
fn clear_screen_after_drawing() {
    // 0x200: jump to 0x206; 0x206: draw digit 0 at (0, 0), jump back to 0x200.
    let mut chip8 = loaded(&[0x12, 0x06, 0, 0, 0, 0, 0xA0, 0x50, 0xD0, 0x05, 0x12, 0x00]);
    let mut rng = Lfsr::new(0xFF);
    run(&mut chip8, &mut rng, 4);
    assert!(lit_pixels(&chip8) > 0);
    assert_eq!(chip8.pc(), 0x200);
    chip8.load_rom(&[0x00, 0xE0]);
    assert_eq!(chip8.step(&mut rng), Ok(StepEffect::FrameChanged));
    assert_eq!(lit_pixels(&chip8), 0);
    assert_eq!(chip8.pc(), 0x202);
}

#[test]
fn add_sets_carry() {
    let mut chip8 = loaded(&[0x61, 0xFF, 0x62, 0x01, 0x81, 0x24]);
    let mut rng = Lfsr::new(0xFF);
    run(&mut chip8, &mut rng, 3);
    assert_eq!(chip8.register(1), 0x00);
    assert_eq!(chip8.register(0xF), 1);
    assert_eq!(chip8.pc(), 0x206);
}

#[test]
fn add_without_carry_clears_flag() {
    let mut chip8 = loaded(&[0x6F, 0x01, 0x61, 0x10, 0x62, 0x20, 0x81, 0x24]);
    let mut rng = Lfsr::new(0xFF);
    run(&mut chip8, &mut rng, 4);
    assert_eq!(chip8.register(1), 0x30);
    assert_eq!(chip8.register(0xF), 0);
}

#[test]
fn subtract_sets_borrow() {
    let mut chip8 = loaded(&[0x61, 0x01, 0x62, 0x02, 0x81, 0x25]);
    let mut rng = Lfsr::new(0xFF);
    run(&mut chip8, &mut rng, 3);
    assert_eq!(chip8.register(1), 0xFF);
    assert_eq!(chip8.register(0xF), 1);
}

#[test]
fn reverse_subtract_and_shifts() {
    // V1 = 5, V2 = 3, V1 = V2 - V1 (wraps, VF = 1 since V1 > V2).
    let mut chip8 = loaded(&[0x61, 0x05, 0x62, 0x03, 0x81, 0x27]);
    let mut rng = Lfsr::new(0xFF);
    run(&mut chip8, &mut rng, 3);
    assert_eq!(chip8.register(1), 0xFE);
    assert_eq!(chip8.register(0xF), 1);

    let mut chip8 = loaded(&[0x63, 0x81, 0x83, 0x06]);
    run(&mut chip8, &mut rng, 2);
    assert_eq!(chip8.register(3), 0x40);
    assert_eq!(chip8.register(0xF), 1);

    let mut chip8 = loaded(&[0x63, 0x81, 0x83, 0x0E]);
    run(&mut chip8, &mut rng, 2);
    assert_eq!(chip8.register(3), 0x02);
    assert_eq!(chip8.register(0xF), 1);

    let mut chip8 = loaded(&[0x63, 0x41, 0x83, 0x0E]);
    run(&mut chip8, &mut rng, 2);
    assert_eq!(chip8.register(3), 0x82);
    assert_eq!(chip8.register(0xF), 0);
}

#[test]
fn bitwise_operations() {
    let mut chip8 = loaded(&[
        0x61, 0xF0, 0x62, 0x3C, 0x63, 0xF0, 0x64, 0xF0, 0x81, 0x21, 0x83, 0x22, 0x84, 0x23,
        0x85, 0x20,
    ]);
    let mut rng = Lfsr::new(0xFF);
    run(&mut chip8, &mut rng, 8);
    assert_eq!(chip8.register(1), 0xFC);
    assert_eq!(chip8.register(3), 0x30);
    assert_eq!(chip8.register(4), 0xCC);
    assert_eq!(chip8.register(5), 0x3C);
}

#[test]
fn add_immediate_wraps_without_flag() {
    let mut chip8 = loaded(&[0x61, 0xFF, 0x71, 0x02]);
    let mut rng = Lfsr::new(0xFF);
    run(&mut chip8, &mut rng, 2);
    assert_eq!(chip8.register(1), 0x01);
    assert_eq!(chip8.register(0xF), 0);
}

#[test]
fn delay_timer_decays_and_saturates() {
    let mut chip8 = loaded(&[0x63, 0x03, 0xF3, 0x15, 0xF3, 0x18]);
    let mut rng = Lfsr::new(0xFF);
    run(&mut chip8, &mut rng, 3);
    assert_eq!(chip8.delay_timer(), 3);
    assert_eq!(chip8.sound_timer(), 3);
    for expected in [2, 1, 0] {
        chip8.tick_timers();
        assert_eq!(chip8.delay_timer(), expected);
    }
    chip8.tick_timers();
    assert_eq!(chip8.delay_timer(), 0);
    assert_eq!(chip8.sound_timer(), 0);
    assert_eq!(chip8.pc(), 0x206);
}

#[test]
fn read_delay_timer_into_register() {
    let mut chip8 = loaded(&[0x63, 0x07, 0xF3, 0x15, 0xF5, 0x07]);
    let mut rng = Lfsr::new(0xFF);
    run(&mut chip8, &mut rng, 2);
    chip8.tick_timers();
    run(&mut chip8, &mut rng, 1);
    assert_eq!(chip8.register(5), 6);
}

#[test]
fn prng_is_deterministic() {
    let mut a = Lfsr::new(0xFF);
    let mut b = Lfsr::new(0xFF);
    for _ in 0..1000 {
        let x = a.next();
        assert_eq!(x, b.next());
        assert_ne!(x, 0);
        assert_eq!(a.state(), x);
    }
}

#[test]
fn prng_first_values() {
    let mut rng = Lfsr::new(0xFF);
    let drawn: Vec<u8> = (0..4).map(|_| rng.next()).collect();
    assert_eq!(drawn, vec![0x7F, 0xBF, 0x5F, 0x2F]);
}

#[test]
fn prng_small_seed_reaches_zero() {
    let mut rng = Lfsr::new(1);
    assert_eq!(rng.next(), 0);
    assert_eq!(rng.next(), 0);
}

#[test]
fn random_opcode_masks_next_value() {
    let mut chip8 = loaded(&[0xC1, 0x0F, 0xC2, 0xFF]);
    let mut rng = Lfsr::new(0xFF);
    run(&mut chip8, &mut rng, 2);
    assert_eq!(chip8.register(1), 0x0F);
    assert_eq!(chip8.register(2), 0xBF);
    assert_eq!(rng.state(), 0xBF);
}

#[test]
fn other_opcodes_leave_prng_alone() {
    let mut chip8 = loaded(&[0x61, 0x0F]);
    let mut rng = Lfsr::new(0xFF);
    run(&mut chip8, &mut rng, 1);
    assert_eq!(rng.state(), 0xFF);
}

#[test]
fn subroutine_round_trip() {
    // 0x200: call 0x206; 0x202: V1 = 7; 0x206: V2 = 9; return.
    let mut chip8 = loaded(&[0x22, 0x06, 0x61, 0x07, 0x00, 0x00, 0x62, 0x09, 0x00, 0xEE]);
    let mut rng = Lfsr::new(0xFF);
    run(&mut chip8, &mut rng, 1);
    assert_eq!(chip8.pc(), 0x206);
    assert_eq!(chip8.stack_depth(), 1);
    run(&mut chip8, &mut rng, 2);
    assert_eq!(chip8.pc(), 0x202);
    assert_eq!(chip8.stack_depth(), 0);
    run(&mut chip8, &mut rng, 1);
    assert_eq!(chip8.register(1), 7);
    assert_eq!(chip8.register(2), 9);
}

#[test]
fn jump_and_jump_with_offset() {
    let mut chip8 = loaded(&[0x12, 0x34]);
    let mut rng = Lfsr::new(0xFF);
    run(&mut chip8, &mut rng, 1);
    assert_eq!(chip8.pc(), 0x234);

    let mut chip8 = loaded(&[0x60, 0x02, 0xB3, 0x00]);
    run(&mut chip8, &mut rng, 2);
    assert_eq!(chip8.pc(), 0x302);

    let mut chip8 = loaded(&[0x60, 0xFF, 0xBF, 0xFF]);
    run(&mut chip8, &mut rng, 2);
    assert_eq!(chip8.pc(), 0x10FE);
    assert_eq!(
        chip8.step(&mut rng),
        Err(MachineFault::AddressOutOfRange { address: 0x10FE, pc: 0x10FE })
    );
}

#[test]
fn conditional_skips() {
    let mut rng = Lfsr::new(0xFF);
    let cases: [([u8; 6], u16); 8] = [
        ([0x61, 0x05, 0x31, 0x05, 0, 0], 0x206),
        ([0x61, 0x05, 0x31, 0x06, 0, 0], 0x204),
        ([0x61, 0x05, 0x41, 0x06, 0, 0], 0x206),
        ([0x61, 0x05, 0x41, 0x05, 0, 0], 0x204),
        ([0x61, 0x05, 0x62, 0x05, 0x51, 0x20], 0x208),
        ([0x61, 0x05, 0x62, 0x06, 0x51, 0x20], 0x206),
        ([0x61, 0x05, 0x62, 0x06, 0x91, 0x20], 0x208),
        ([0x61, 0x05, 0x62, 0x05, 0x91, 0x20], 0x206),
    ];
    for (rom, pc) in cases {
        let mut chip8 = loaded(&rom);
        let steps = if rom[4] == 0 { 2 } else { 3 };
        run(&mut chip8, &mut rng, steps);
        assert_eq!(chip8.pc(), pc);
    }
}

#[test]
fn set_index_register() {
    let mut chip8 = loaded(&[0xA1, 0x23]);
    let mut rng = Lfsr::new(0xFF);
    run(&mut chip8, &mut rng, 1);
    assert_eq!(chip8.index_register(), 0x123);
}

#[test]
fn draw_twice_restores_framebuffer() {
    // RI = digit 0; V1 = 10, V2 = 4; draw twice.
    let mut chip8 = loaded(&[0xA0, 0x50, 0x61, 0x0A, 0x62, 0x04, 0xD1, 0x25, 0xD1, 0x25]);
    let mut rng = Lfsr::new(0xFF);
    run(&mut chip8, &mut rng, 3);
    assert_eq!(chip8.step(&mut rng), Ok(StepEffect::FrameChanged));
    assert_eq!(lit_pixels(&chip8), 14);
    assert!(chip8.pixel(10, 4));
    assert!(chip8.pixel(13, 4));
    assert!(!chip8.pixel(14, 4));
    assert!(chip8.pixel(10, 5));
    assert!(!chip8.pixel(11, 5));
    assert_eq!(chip8.register(0xF), 0);
    assert_eq!(chip8.step(&mut rng), Ok(StepEffect::FrameChanged));
    assert_eq!(lit_pixels(&chip8), 0);
    assert_eq!(chip8.register(0xF), 1);
}

#[test]
fn draw_wraps_start_and_clips_edges() {
    // V0 = 62 + 64 (wraps to 62), V1 = 30; digit 0 clipped to 2x2 pixels.
    let mut chip8 = loaded(&[0x60, 0x7E, 0x61, 0x1E, 0xA0, 0x50, 0xD0, 0x15]);
    let mut rng = Lfsr::new(0xFF);
    run(&mut chip8, &mut rng, 4);
    assert_eq!(lit_pixels(&chip8), 3);
    assert!(chip8.pixel(62, 30));
    assert!(chip8.pixel(63, 30));
    assert!(chip8.pixel(62, 31));
    assert!(!chip8.pixel(63, 31));
    assert!(!chip8.pixel(0, 31));
}

#[test]
fn draw_past_memory_end_faults() {
    let mut chip8 = loaded(&[0xAF, 0xFE, 0xD0, 0x15]);
    let mut rng = Lfsr::new(0xFF);
    run(&mut chip8, &mut rng, 1);
    assert_eq!(
        chip8.step(&mut rng),
        Err(MachineFault::AddressOutOfRange { address: 0x1000, pc: 0x202 })
    );
    assert_eq!(chip8.pc(), 0x202);
    assert_eq!(lit_pixels(&chip8), 0);
}

#[test]
fn return_with_empty_stack_faults() {
    let mut chip8 = loaded(&[0x00, 0xEE]);
    let mut rng = Lfsr::new(0xFF);
    assert_eq!(chip8.step(&mut rng), Err(MachineFault::StackUnderflow { pc: 0x200 }));
    assert_eq!(chip8.pc(), 0x200);
}

#[test]
fn deep_calls_overflow_the_stack() {
    let mut chip8 = loaded(&[0x22, 0x00]);
    let mut rng = Lfsr::new(0xFF);
    run(&mut chip8, &mut rng, 16);
    assert_eq!(chip8.stack_depth(), 16);
    assert_eq!(chip8.step(&mut rng), Err(MachineFault::StackOverflow { pc: 0x200 }));
    assert_eq!(chip8.stack_depth(), 16);
}

#[test]
fn unknown_opcodes_fault() {
    let mut rng = Lfsr::new(0xFF);
    for op in [0x0123u16, 0x5121, 0x8128, 0x912F, 0xE09E, 0xF029, 0xF155] {
        let mut chip8 = loaded(&[(op >> 8) as u8, op as u8]);
        assert_eq!(
            chip8.step(&mut rng),
            Err(MachineFault::UnknownOpcode { opcode: op, pc: 0x200 })
        );
        assert_eq!(chip8.pc(), 0x200);
    }
}

#[test]
fn fetch_past_memory_end_faults() {
    let mut chip8 = loaded(&[0x1F, 0xFF]);
    let mut rng = Lfsr::new(0xFF);
    run(&mut chip8, &mut rng, 1);
    assert_eq!(chip8.pc(), 0xFFF);
    assert_eq!(
        chip8.step(&mut rng),
        Err(MachineFault::AddressOutOfRange { address: 0x1000, pc: 0xFFF })
    );
}

#[test]
fn advance_applies_pending_ticks() {
    let mut chip8 = loaded(&[0x63, 0x05, 0xF3, 0x15, 0x64, 0x01, 0x65, 0x02]);
    let mut rng = Lfsr::new(0xFF);
    run(&mut chip8, &mut rng, 2);
    assert_eq!(chip8.delay_timer(), 5);

    assert_eq!(chip8.advance(&mut rng, false, false), Ok(StepEffect::Continue));
    assert_eq!(chip8.delay_timer(), 5);
    assert_eq!(chip8.pc(), 0x204);

    assert_eq!(chip8.advance(&mut rng, true, false), Ok(StepEffect::Continue));
    assert_eq!(chip8.delay_timer(), 4);
    assert_eq!(chip8.pc(), 0x204);

    assert_eq!(chip8.advance(&mut rng, false, true), Ok(StepEffect::Continue));
    assert_eq!(chip8.delay_timer(), 4);
    assert_eq!(chip8.register(4), 1);
    assert_eq!(chip8.pc(), 0x206);

    assert_eq!(chip8.advance(&mut rng, true, true), Ok(StepEffect::Continue));
    assert_eq!(chip8.delay_timer(), 3);
    assert_eq!(chip8.register(5), 2);
    assert_eq!(chip8.pc(), 0x208);
}

#[test]
fn advance_keeps_timer_tick_on_fault() {
    let mut chip8 = loaded(&[0x63, 0x05, 0xF3, 0x15, 0x00, 0xEE]);
    let mut rng = Lfsr::new(0xFF);
    run(&mut chip8, &mut rng, 2);
    assert_eq!(
        chip8.advance(&mut rng, true, true),
        Err(MachineFault::StackUnderflow { pc: 0x204 })
    );
    assert_eq!(chip8.delay_timer(), 4);
    assert_eq!(chip8.pc(), 0x204);
}

#[test]
fn advance_reports_frame_changes() {
    let mut chip8 = loaded(&[0x00, 0xE0]);
    let mut rng = Lfsr::new(0xFF);
    assert_eq!(chip8.advance(&mut rng, false, true), Ok(StepEffect::FrameChanged));
}
