use chip8::clock::{countdown, TICK_NS};
use chip8::errors::{EngineError, StepOutcome};
use chip8::registers::Registers;
use chip8::vm::{load_rom, VM};

/// A time far enough along that the pacing gate permits every cycle these
/// short programs run (the clock is stamped 0 by `load_rom`).
const LATE: u64 = 1_000_000_000_000;

fn boot(words: &[u16]) -> VM {
    let mut bytes: Vec<u8> = Vec::new();
    for w in words {
        bytes.push((w >> 8) as u8);
        bytes.push((w & 0xFF) as u8);
    }
    load_rom(bytes).expect("program fits")
}

fn step_ok(vm: &mut VM, now: u64) {
    assert_eq!(vm.step(now), Ok(StepOutcome::Executed));
}

#[test]
fn load_exact_limit_succeeds() {
    let vm = load_rom(vec![0u8; 0x800]).expect("0x800 bytes fit");
    assert_eq!(vm.rom_size, 0x800);
    assert_eq!(vm.pc, 0x200);
}

#[test]
fn load_too_large_fails() {
    let r = load_rom(vec![0u8; 0x801]);
    assert_eq!(r.err(), Some(EngineError::ProgramTooLarge));
}

#[test]
fn load_places_program_and_reserved_rom() {
    let program: Vec<u8> = (0..100u8).collect();
    let vm = load_rom(program.clone()).unwrap();
    for (k, b) in program.iter().enumerate() {
        assert_eq!(vm.memory[0x200 + k], *b);
    }
    // the reserved region starts with the glyph for digit 0
    assert_eq!(&vm.memory[0..5], &[0xF0, 0x90, 0x90, 0x90, 0xF0]);
    // live memory is a copy of the pristine ROM
    assert_eq!(vm.memory, vm.rom);
    // padding above the program is zero
    assert_eq!(vm.memory[0x200 + 100], 0);
    assert_eq!(vm.memory[0xFFF], 0);
}

#[test]
fn add_with_carry() {
    let mut vm = boot(&[0x60FF, 0x6101, 0x8014]);
    step_ok(&mut vm, LATE);
    step_ok(&mut vm, LATE);
    step_ok(&mut vm, LATE);
    assert_eq!(vm.regs.v[0], 0x00);
    assert_eq!(vm.regs.v[0xF], 1);
}

#[test]
fn sub_with_borrow() {
    let mut vm = boot(&[0x6001, 0x6102, 0x8015]);
    step_ok(&mut vm, LATE);
    step_ok(&mut vm, LATE);
    step_ok(&mut vm, LATE);
    assert_eq!(vm.regs.v[0], 0xFF);
    assert_eq!(vm.regs.v[0xF], 0);
}

#[test]
fn sixteen_calls_succeed_seventeenth_overflows() {
    // each word at 0x200 + 2k calls the next address
    let mut words: Vec<u16> = Vec::new();
    for k in 0..17u16 {
        words.push(0x2000 | (0x202 + 2 * k));
    }
    let mut vm = boot(&words);
    for _ in 0..16 {
        step_ok(&mut vm, LATE);
    }
    assert_eq!(vm.sp, 16);
    assert_eq!(vm.step(LATE), Err(EngineError::StackOverflow));
    assert_eq!(vm.sp, 16);
}

#[test]
fn return_with_empty_stack_underflows() {
    let mut vm = boot(&[0x00EE]);
    assert_eq!(vm.step(LATE), Err(EngineError::StackUnderflow));
    assert_eq!(vm.pc, 0x200);
}

#[test]
fn drawing_twice_clears_pixels_and_collides() {
    // V0 = 0, I = 0 (glyph for 0), draw 5 rows at (0,0), twice
    let mut vm = boot(&[0x6000, 0xA000, 0xD005, 0xD005]);
    step_ok(&mut vm, LATE);
    step_ok(&mut vm, LATE);
    step_ok(&mut vm, LATE);
    assert_eq!(vm.regs.v[0xF], 0, "first draw reports no collision");
    assert_eq!(vm.display.video[0], 0xF0, "glyph row lands in the buffer");
    step_ok(&mut vm, LATE);
    assert_eq!(vm.regs.v[0xF], 1, "second draw reports the collision");
    for k in 0..256 {
        assert_eq!(vm.display.video[k], 0, "byte {} cleared again", k);
    }
}

#[test]
fn delay_timer_counts_down_by_ticks() {
    // V0 = 10, DT = V0, then read DT twice
    let mut vm = boot(&[0x600A, 0xF015, 0xF007, 0xF007]);
    let t0 = LATE;
    step_ok(&mut vm, t0);
    step_ok(&mut vm, t0);
    step_ok(&mut vm, t0 + TICK_NS);
    assert_eq!(vm.regs.v[0], 9, "one whole tick elapsed");
    step_ok(&mut vm, t0 + 10 * TICK_NS);
    assert_eq!(vm.regs.v[0], 0, "expired timer reads 0");
}

#[test]
fn countdown_is_ceiling_of_remaining_ticks() {
    let start: u64 = 5_000_000;
    let deadline = start + 10 * TICK_NS;
    assert_eq!(countdown(deadline, start), 10);
    assert_eq!(countdown(deadline, start + 1), 10);
    assert_eq!(countdown(deadline, start + TICK_NS), 9);
    assert_eq!(countdown(deadline, start + 10 * TICK_NS), 0);
    assert_eq!(countdown(deadline, start + 11 * TICK_NS), 0);
}

#[test]
fn unknown_opcode_is_illegal_and_mutates_nothing() {
    let mut vm = boot(&[0xFFFF]);
    assert_eq!(vm.step(LATE), Err(EngineError::IllegalInstruction));
    assert_eq!(vm.pc, 0x200);
    assert_eq!(vm.cycles, 0);
    for k in 0..16 {
        assert_eq!(vm.regs.v[k], 0);
    }
}

#[test]
fn pacing_stabilizes_at_the_configured_rate() {
    // a program that jumps to itself forever, at the default 700 per second
    let mut vm = boot(&[0x1200]);
    let second: u64 = 1_000_000_000;
    loop {
        match vm.step(second) {
            Ok(StepOutcome::Executed) => {
                assert!(vm.cycles <= 701, "cycle count never runs ahead");
            }
            Ok(StepOutcome::Paced) => break,
            other => panic!("unexpected step result {:?}", other),
        }
    }
    assert!(700 <= vm.cycles && vm.cycles <= 701);
    // half way through the second, at most half the cycles are permitted
    let mut early = boot(&[0x1200]);
    loop {
        match early.step(second / 2) {
            Ok(StepOutcome::Executed) => {}
            Ok(StepOutcome::Paced) => break,
            other => panic!("unexpected step result {:?}", other),
        }
    }
    assert!(350 <= early.cycles && early.cycles <= 351);
}

#[test]
fn wait_key_is_edge_triggered() {
    let mut vm = boot(&[0xF50A]);
    vm.set_key(3, true); // held before the wait begins
    step_ok(&mut vm, LATE); // enters the await-key state
    assert!(vm.waiting);
    assert_eq!(vm.pc, 0x200, "the program counter does not advance");
    assert_eq!(vm.step(LATE), Ok(StepOutcome::AwaitingKey), "held key does not satisfy");
    vm.set_key(7, true);
    step_ok(&mut vm, LATE);
    assert!(!vm.waiting);
    assert_eq!(vm.regs.v[5], 7, "the newly pressed key lands in V5");
    assert_eq!(vm.pc, 0x202);
}

#[test]
fn reset_restores_memory_and_preserves_config() {
    let mut vm = boot(&[0x6005, 0xA123, 0x00FF]);
    vm.set_speed(900);
    vm.set_key(2, true);
    step_ok(&mut vm, LATE);
    step_ok(&mut vm, LATE);
    step_ok(&mut vm, LATE);
    assert_eq!(vm.regs.v[0], 5);
    assert_eq!(vm.display.pitch, 16);
    vm.reset(42);
    assert_eq!(vm.memory, vm.rom);
    assert_eq!(vm.pc, 0x200);
    assert_eq!(vm.sp, 0);
    assert_eq!(vm.cycles, 0);
    assert_eq!(vm.clock, 42);
    assert_eq!(vm.regs.v[0], 0);
    assert_eq!(vm.regs.i, 0);
    assert_eq!(vm.display.pitch, 8);
    assert!(vm.display.video.iter().all(|b| *b == 0));
    assert!(vm.keys.iter().all(|k| !*k));
    assert_eq!(vm.speed, 900, "speed survives reset");
    assert_eq!(vm.rom_size, 6, "the loaded program survives reset");
}

#[test]
fn bcd_writes_decimal_digits() {
    let mut vm = boot(&[0x60FE, 0xA300, 0xF033]);
    step_ok(&mut vm, LATE);
    step_ok(&mut vm, LATE);
    step_ok(&mut vm, LATE);
    assert_eq!(vm.memory[0x300], 2);
    assert_eq!(vm.memory[0x301], 5);
    assert_eq!(vm.memory[0x302], 4);
}

#[test]
fn store_and_load_registers_round_trip() {
    let mut vm = boot(&[
        0x6011, 0x6122, 0x6233, 0xA400, 0xF255, 0x6000, 0x6100, 0x6200, 0xF265,
    ]);
    for _ in 0..5 {
        step_ok(&mut vm, LATE);
    }
    assert_eq!(&vm.memory[0x400..0x403], &[0x11, 0x22, 0x33]);
    for _ in 0..4 {
        step_ok(&mut vm, LATE);
    }
    assert_eq!(vm.regs.v[0], 0x11);
    assert_eq!(vm.regs.v[1], 0x22);
    assert_eq!(vm.regs.v[2], 0x33);
}

#[test]
fn flag_registers_save_and_restore() {
    let mut vm = boot(&[0x6009, 0x6108, 0xF175, 0x6000, 0x6100, 0xF185]);
    for _ in 0..6 {
        step_ok(&mut vm, LATE);
    }
    assert_eq!(vm.regs.r[0], 9);
    assert_eq!(vm.regs.r[1], 8);
    assert_eq!(vm.regs.v[0], 9);
    assert_eq!(vm.regs.v[1], 8);
}

#[test]
fn flag_save_beyond_seven_is_invalid() {
    let mut vm = boot(&[0xF875]);
    assert_eq!(vm.step(LATE), Err(EngineError::InvalidOperand));
    assert_eq!(vm.pc, 0x200);
}

#[test]
fn resolution_switch_and_scrolling() {
    // high resolution, draw the 0 glyph at (0,0), scroll down 1, scroll up 1
    let mut vm = boot(&[0x00FF, 0x6000, 0xA000, 0xD005, 0x00C1, 0x00B1]);
    step_ok(&mut vm, LATE);
    assert_eq!(vm.display.pitch, 16);
    assert!(vm.high_resolution());
    step_ok(&mut vm, LATE);
    step_ok(&mut vm, LATE);
    step_ok(&mut vm, LATE);
    assert_eq!(vm.display.video[0], 0xF0);
    step_ok(&mut vm, LATE);
    assert_eq!(vm.display.video[0], 0, "top scan line blank after scroll down");
    assert_eq!(vm.display.video[16], 0xF0, "glyph row moved down one line");
    step_ok(&mut vm, LATE);
    assert_eq!(vm.display.video[0], 0xF0, "scroll up brings the row back");
}

#[test]
fn font_sprite_addresses_glyph() {
    let mut vm = boot(&[0x600A, 0xF029]);
    step_ok(&mut vm, LATE);
    step_ok(&mut vm, LATE);
    assert_eq!(vm.regs.i, 50, "glyph for 0xA sits at 5 * 10");
    // the glyph bytes are the A glyph of the built-in font
    assert_eq!(&vm.memory[50..55], &[0xF0, 0x90, 0xF0, 0x90, 0x90]);
}

#[test]
fn random_masks_and_is_seeded_by_the_clock() {
    let mut vm = boot(&[0xC000, 0xC1FF]);
    step_ok(&mut vm, LATE);
    assert_eq!(vm.regs.v[0], 0, "a zero mask forces zero");
    step_ok(&mut vm, LATE);
    let first = vm.regs.v[1];
    let mut again = boot(&[0xC000, 0xC1FF]);
    step_ok(&mut again, LATE);
    step_ok(&mut again, LATE);
    assert_eq!(again.regs.v[1], first, "the same seed gives the same draw");
}

#[test]
fn skips_take_the_long_step() {
    let mut vm = boot(&[0x6005, 0x3005, 0x6101, 0x6202]);
    step_ok(&mut vm, LATE);
    step_ok(&mut vm, LATE);
    assert_eq!(vm.pc, 0x206, "an equal immediate skips the next word");
    step_ok(&mut vm, LATE);
    assert_eq!(vm.regs.v[1], 0, "the skipped instruction never ran");
    assert_eq!(vm.regs.v[2], 2);
}

#[test]
fn key_skips_read_the_pad() {
    let mut vm = boot(&[0x6001, 0xE09E, 0x6105, 0x6207]);
    vm.set_key(1, true);
    step_ok(&mut vm, LATE);
    step_ok(&mut vm, LATE);
    assert_eq!(vm.pc, 0x206, "pressed key skips");
    step_ok(&mut vm, LATE);
    assert_eq!(vm.regs.v[1], 0);
    assert_eq!(vm.regs.v[2], 7);
}

#[test]
fn fetch_past_end_of_memory_faults() {
    let mut vm = boot(&[0x1FFF]);
    step_ok(&mut vm, LATE);
    assert_eq!(vm.pc, 0xFFF);
    assert_eq!(vm.step(LATE), Err(EngineError::MemoryFault));
}

#[test]
fn shifts_capture_the_lost_bit() {
    let mut vm = boot(&[0x6005, 0x8006, 0x6281, 0x820E]);
    step_ok(&mut vm, LATE);
    step_ok(&mut vm, LATE);
    assert_eq!(vm.regs.v[0], 2);
    assert_eq!(vm.regs.v[0xF], 1);
    step_ok(&mut vm, LATE);
    step_ok(&mut vm, LATE);
    assert_eq!(vm.regs.v[2], 0x02);
    assert_eq!(vm.regs.v[0xF], 1);
}

#[test]
fn index_register_adds_and_wraps_in_sixteen_bits() {
    let mut vm = boot(&[0xAFFF, 0x60FF, 0xF01E]);
    step_ok(&mut vm, LATE);
    step_ok(&mut vm, LATE);
    step_ok(&mut vm, LATE);
    assert_eq!(vm.regs.i, 0x10FE, "the address register holds 16 bits");
}

#[test]
fn jump_with_offset_lands_on_target_plus_v0() {
    let mut vm = boot(&[0x6004, 0xB300]);
    step_ok(&mut vm, LATE);
    step_ok(&mut vm, LATE);
    assert_eq!(vm.pc, 0x304);
}

#[test]
fn logic_ops_combine_registers() {
    let mut vm = boot(&[0x60F0, 0x610F, 0x8011, 0x62CC, 0x63AA, 0x8232, 0x8103]);
    for _ in 0..7 {
        step_ok(&mut vm, LATE);
    }
    assert_eq!(vm.regs.v[0], 0xFF, "or");
    assert_eq!(vm.regs.v[2], 0x88, "and");
    assert_eq!(vm.regs.v[1], 0x0F ^ 0xFF, "xor");
}

#[test]
fn sound_timer_drives_the_active_signal() {
    let mut vm = boot(&[0x6005, 0xF018]);
    let t0 = LATE;
    step_ok(&mut vm, t0);
    step_ok(&mut vm, t0);
    assert!(vm.sound_active(t0));
    assert!(vm.sound_active(t0 + 4 * TICK_NS));
    assert!(!vm.sound_active(t0 + 5 * TICK_NS));
}

#[test]
fn accessors_expose_the_framebuffer() {
    let vm = VM::new();
    assert_eq!(vm.pitch(), 8);
    assert!(!vm.high_resolution());
    assert_eq!(vm.framebuffer().len(), 0x440);
    assert_eq!(vm.speed, 700);
    assert_eq!(vm.pc, 0x200);
}

#[test]
fn registers_start_zeroed() {
    let r = Registers::new();
    assert_eq!(r.i, 0);
    assert_eq!(r.v, vec![0u8; 16]);
    assert_eq!(r.r, vec![0u8; 8]);
    assert_eq!(r.dt, 0);
    assert_eq!(r.st, 0);
}

#[test]
fn error_messages_name_the_fault() {
    assert_eq!(
        EngineError::ProgramTooLarge.message(),
        "the program is too large to fit into memory"
    );
    assert!(!EngineError::StackOverflow.message().is_empty());
    assert!(!EngineError::IllegalInstruction.message().is_empty());
}
