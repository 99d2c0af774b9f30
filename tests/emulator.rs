use chip_8::{decode, font_table, AluOp, EmulatorError, EmulatorState, Instruction};

/// The "IBM Logo" test program: clears the screen and draws six sprites.
fn ibm_logo() -> Vec<u8> {
    vec![
        0x00, 0xE0, 0xA2, 0x2A, 0x60, 0x0C, 0x61, 0x08, 0xD0, 0x1F, 0x70, 0x09, 0xA2, 0x39, 0xD0,
        0x1F, 0xA2, 0x48, 0x70, 0x08, 0xD0, 0x1F, 0x70, 0x04, 0xA2, 0x57, 0xD0, 0x1F, 0x70, 0x08,
        0xA2, 0x66, 0xD0, 0x1F, 0x70, 0x08, 0xA2, 0x75, 0xD0, 0x1F, 0x12, 0x28, 0xFF, 0x00, 0xFF,
        0x00, 0x3C, 0x00, 0x3C, 0x00, 0x3C, 0x00, 0x3C, 0x00, 0xFF, 0x00, 0xFF, 0xFF, 0x00, 0xFF,
        0x00, 0x38, 0x00, 0x3F, 0x00, 0x3F, 0x00, 0x38, 0x00, 0xFF, 0x00, 0xFF, 0x80, 0x00, 0xE0,
        0x00, 0xE0, 0x00, 0x80, 0x00, 0x80, 0x00, 0xE0, 0x00, 0xE0, 0x00, 0x80, 0xF8, 0x00, 0xFC,
        0x00, 0x3E, 0x00, 0x3F, 0x00, 0x3B, 0x00, 0x39, 0x00, 0xF8, 0x00, 0xF8, 0x03, 0x00, 0x07,
        0x00, 0x0F, 0x00, 0xBF, 0x00, 0xFB, 0x00, 0xF3, 0x00, 0xE3, 0x00, 0x43, 0xE0, 0x00, 0xE0,
        0x00, 0x80, 0x00, 0x80, 0x00, 0x80, 0x00, 0x80, 0x00, 0xE0, 0x00, 0xE0,
    ]
}

fn loaded(rom: &[u8]) -> EmulatorState {
    let mut emulator_state = EmulatorState::new();
    emulator_state.load_rom(rom).unwrap();
    emulator_state
}

fn run(emulator_state: &mut EmulatorState, ticks: usize) {
    for _ in 0..ticks {
        emulator_state.tick().unwrap();
    }
}

fn lit_count(emulator_state: &EmulatorState) -> usize {
    emulator_state.graphics_buffer().iter().filter(|p| **p == 1).count()
}

#[test]
fn emulator_creation_test() {
    let emulator_state = EmulatorState::new();

    println!("{:?}", emulator_state.memory())
}

#[test]
fn rom_load_test() {
    let rom = ibm_logo();

    let mut emulator_state = EmulatorState::new();

    emulator_state.load_rom(&rom).unwrap();

    assert!(emulator_state.rom_loaded());

    assert_eq!(132, rom.len());

    let memory = emulator_state.memory();

    assert_eq!(0, memory[0x200]);
    assert_eq!(0xE0, memory[0x201]);
    assert_eq!(0xE0, memory[0x200 + rom.len() - 1]);
}

#[test]
fn run_cycle_test() {
    let mut emulator_state = loaded(&ibm_logo());

    //runs a single cycle
    emulator_state.tick().unwrap();

    //this should be the opcode after a single cycle
    assert_eq!(0x00e0, emulator_state.op_code());
}

#[test]
fn sample_test() {
    let mut emulator_state = loaded(&ibm_logo());

    for _ in [1; 500] {
        emulator_state.tick().unwrap();
    }

    // The program ends in a jump to itself.
    assert_eq!(0x228, emulator_state.program_counter());
    assert!(lit_count(&emulator_state) > 0);
}

#[test]
fn sample_test_2() {
    let x = 1;

    println!("{:#06x}", x ^ 0)
}

#[test]
fn new_state_is_zeroed_with_font() {
    let e = EmulatorState::new();
    assert_eq!(0x200, e.program_counter());
    assert_eq!(0, e.index_register());
    for x in 0..16 {
        assert_eq!(0, e.register(x));
    }
    assert!(e.stack().is_empty());
    assert_eq!(0, e.delay_timer());
    assert_eq!(0, e.sound_timer());
    assert!(!e.sound_active());
    assert_eq!(2048, e.graphics_buffer().len());
    assert!(e.graphics_buffer().iter().all(|p| *p == 0));
    let memory = e.memory();
    assert_eq!(4096, memory.len());
    assert_eq!(&font_table()[..], &memory[0..80]);
    assert!(memory[80..].iter().all(|b| *b == 0));
    assert!(!e.rom_loaded());
}

#[test]
fn font_table_holds_sixteen_glyphs() {
    let font = font_table();
    assert_eq!(80, font.len());
    assert_eq!(&[0xF0, 0x90, 0x90, 0x90, 0xF0], &font[0..5]);
    assert_eq!(&[0xF0, 0x80, 0xF0, 0x80, 0x80], &font[75..80]);
}

#[test]
fn screen_dimensions() {
    let e = EmulatorState::new();
    assert_eq!(64, e.screen_width());
    assert_eq!(32, e.screen_height());
}

#[test]
fn load_rom_places_bytes_at_0x200() {
    let rom = vec![1u8, 2, 3, 4, 5];
    let e = loaded(&rom);
    let memory = e.memory();
    assert_eq!(&rom[..], &memory[0x200..0x205]);
    assert_eq!(&font_table()[..], &memory[0..80]);
    assert!(memory[80..0x200].iter().all(|b| *b == 0));
    assert!(memory[0x205..].iter().all(|b| *b == 0));
}

#[test]
fn load_rom_of_largest_size() {
    let rom = vec![0xABu8; 0xE00];
    let e = loaded(&rom);
    assert_eq!(0xAB, e.memory()[0x200]);
    assert_eq!(0xAB, e.memory()[0xFFF]);
}

#[test]
fn load_rom_too_large() {
    let rom = vec![0xABu8; 0xE01];
    let mut e = EmulatorState::new();
    assert_eq!(Err(EmulatorError::RomTooLarge { len: 0xE01 }), e.load_rom(&rom));
    assert!(!e.rom_loaded());
    assert!(e.memory()[0x200..].iter().all(|b| *b == 0));
}

#[test]
fn tick_without_rom() {
    let mut e = EmulatorState::new();
    assert_eq!(Err(EmulatorError::RomNotLoaded), e.tick());
    assert_eq!(0x200, e.program_counter());
}

#[test]
fn add_wraps_and_keeps_flag() {
    let mut e = loaded(&[0x6F, 0x05, 0x63, 0xFF, 0x73, 0x02]);
    run(&mut e, 3);
    assert_eq!(0x01, e.register(3));
    assert_eq!(0x05, e.register(0xF));
}

#[test]
fn add_without_overflow() {
    let mut e = loaded(&[0x62, 0x10, 0x72, 0x22]);
    run(&mut e, 2);
    assert_eq!(0x32, e.register(2));
}

#[test]
fn clear_after_draw_blanks_screen() {
    // V0 = 10, V1 = 5, I = glyph "8", draw 5 rows, clear.
    let mut e = loaded(&[0x60, 0x0A, 0x61, 0x05, 0xA0, 0x28, 0xD0, 0x15, 0x00, 0xE0]);
    run(&mut e, 4);
    assert!(lit_count(&e) > 0);
    e.clear_redraw();
    run(&mut e, 1);
    assert_eq!(0, lit_count(&e));
    assert!(e.should_redraw());
}

#[test]
fn clear_screen_scenario() {
    let mut e = loaded(&[0x00, 0xE0]);
    e.clear_redraw();
    e.tick().unwrap();
    assert_eq!(0x202, e.program_counter());
    assert!(e.graphics_buffer().iter().all(|p| *p == 0));
    assert!(e.should_redraw());
}

#[test]
fn call_then_return() {
    // 0x200: call 0x206; 0x206: return.
    let mut e = loaded(&[0x22, 0x06, 0x00, 0x00, 0x00, 0x00, 0x00, 0xEE]);
    e.tick().unwrap();
    assert_eq!(0x206, e.program_counter());
    assert_eq!(&[0x202u16], e.stack());
    e.tick().unwrap();
    assert_eq!(0x202, e.program_counter());
    assert!(e.stack().is_empty());
}

#[test]
fn jump_sets_program_counter() {
    let mut e = loaded(&[0x12, 0x34]);
    e.tick().unwrap();
    assert_eq!(0x234, e.program_counter());
}

#[test]
fn set_register_scenario() {
    assert_eq!(Some(Instruction::SetRegister { x: 9, value: 0x71 }), decode(0x6971));
    let mut e = loaded(&[0x69, 0x71]);
    e.tick().unwrap();
    for x in 0..16 {
        let expected = if x == 9 { 0x71 } else { 0 };
        assert_eq!(expected, e.register(x));
    }
    assert_eq!(0x202, e.program_counter());
}

#[test]
fn set_index_scenario() {
    assert_eq!(Some(Instruction::SetIndex { addr: 0x2F0 }), decode(0xA2F0));
    let mut e = loaded(&[0xA2, 0xF0]);
    e.clear_redraw();
    e.tick().unwrap();
    assert_eq!(0x2F0, e.index_register());
    assert_eq!(0x202, e.program_counter());
    for x in 0..16 {
        assert_eq!(0, e.register(x));
    }
    assert!(e.stack().is_empty());
    assert_eq!(0, lit_count(&e));
    assert!(!e.should_redraw());
}

#[test]
fn decode_extracts_fields() {
    assert_eq!(Some(Instruction::ClearScreen), decode(0x00E0));
    assert_eq!(Some(Instruction::Return), decode(0x00EE));
    assert_eq!(Some(Instruction::Jump { addr: 0xABC }), decode(0x1ABC));
    assert_eq!(Some(Instruction::Call { addr: 0x3F2 }), decode(0x23F2));
    assert_eq!(Some(Instruction::AddToRegister { x: 0xE, value: 0x0C }), decode(0x7E0C));
    assert_eq!(Some(Instruction::Draw { x: 0x1, y: 0x2, height: 0x3 }), decode(0xD123));
    assert_eq!(None, decode(0x0123));
    assert_eq!(None, decode(0xE0FF));
    assert_eq!(None, decode(0xF0FF));
    assert_eq!(None, decode(0x8128));
    assert_eq!(None, decode(0x5121));
    assert_eq!(Some(Instruction::Arithmetic { op: AluOp::Or, x: 1, y: 2 }), decode(0x8121));
    assert_eq!(Some(Instruction::Arithmetic { op: AluOp::ShiftLeft, x: 1, y: 2 }), decode(0x812E));
    assert_eq!(Some(Instruction::SkipIfRegistersNotEqual { x: 3, y: 4 }), decode(0x9340));
    assert_eq!(Some(Instruction::JumpWithOffset { addr: 0x345 }), decode(0xB345));
    assert_eq!(Some(Instruction::Random { x: 5, mask: 0x0F }), decode(0xC50F));
    assert_eq!(Some(Instruction::SkipIfKeyDown { x: 6 }), decode(0xE69E));
    assert_eq!(Some(Instruction::SkipIfKeyUp { x: 6 }), decode(0xE6A1));
    assert_eq!(Some(Instruction::WaitForKey { x: 0 }), decode(0xF00A));
    assert_eq!(Some(Instruction::LoadRegisters { x: 0xA }), decode(0xFA65));
}

#[test]
fn draw_twice_restores_screen() {
    // V0 = 3, V1 = 7, I = glyph "0", draw, draw.
    let mut e = loaded(&[0x60, 0x03, 0x61, 0x07, 0xA0, 0x00, 0xD0, 0x15, 0xD0, 0x15]);
    run(&mut e, 4);
    assert_eq!(0, e.register(0xF));
    assert_eq!(14, lit_count(&e));
    assert!(e.pixel(3, 7));
    assert!(e.pixel(6, 7));
    assert!(!e.pixel(7, 7));
    assert!(!e.pixel(4, 8));
    run(&mut e, 1);
    assert_eq!(1, e.register(0xF));
    assert_eq!(0, lit_count(&e));
}

#[test]
fn draw_over_partly_lit_area() {
    // Glyph "1" then glyph "0" at the same place: they share lit pixels.
    let mut e = loaded(&[0xA0, 0x05, 0xD0, 0x05, 0xA0, 0x00, 0xD0, 0x05]);
    run(&mut e, 2);
    assert_eq!(0, e.register(0xF));
    run(&mut e, 2);
    assert_eq!(1, e.register(0xF));
    // (2, 0) was lit by both and is now dark; (0, 0) only by the second.
    assert!(!e.pixel(2, 0));
    assert!(e.pixel(0, 0));
}

#[test]
fn draw_clips_at_right_and_bottom_edges() {
    // V0 = 62, V1 = 30, I = glyph "0" (rows of four pixels), draw five rows.
    let mut e = loaded(&[0x60, 0x3E, 0x61, 0x1E, 0xA0, 0x00, 0xD0, 0x15]);
    run(&mut e, 4);
    assert!(e.pixel(62, 30));
    assert!(e.pixel(63, 30));
    assert!(e.pixel(62, 31));
    assert!(!e.pixel(63, 31));
    assert!(!e.pixel(0, 30));
    assert!(!e.pixel(0, 31));
    assert!(!e.pixel(62, 0));
    assert_eq!(3, lit_count(&e));
}

#[test]
fn draw_wraps_start_position() {
    // V0 = 66 starts at column 2, V1 = 33 at row 1.
    let mut e = loaded(&[0x60, 0x42, 0x61, 0x21, 0xA0, 0x00, 0xD0, 0x11]);
    run(&mut e, 4);
    assert!(e.pixel(2, 1));
    assert!(e.pixel(5, 1));
    assert!(!e.pixel(6, 1));
    assert_eq!(4, lit_count(&e));
}

#[test]
fn draw_reading_past_memory_fails() {
    let mut e = loaded(&[0xAF, 0xFF, 0xD0, 0x1F]);
    e.tick().unwrap();
    assert_eq!(Err(EmulatorError::SpriteOutOfBounds { index: 0xFFF, height: 15 }), e.tick());
    assert_eq!(0x202, e.program_counter());
}

#[test]
fn unknown_instruction_fails_without_change() {
    let mut e = loaded(&[0xF0, 0xFF]);
    assert_eq!(Err(EmulatorError::UnknownInstruction { word: 0xF0FF }), e.tick());
    assert_eq!(0x200, e.program_counter());
    assert_eq!(0, e.op_code());
}

#[test]
fn return_with_empty_stack_fails() {
    let mut e = loaded(&[0x00, 0xEE]);
    assert_eq!(Err(EmulatorError::StackUnderflow), e.tick());
    assert_eq!(0x200, e.program_counter());
}

#[test]
fn call_beyond_stack_limit_fails() {
    // A subroutine that calls itself.
    let mut e = loaded(&[0x22, 0x00]);
    run(&mut e, 16);
    assert_eq!(16, e.stack().len());
    assert_eq!(Err(EmulatorError::StackOverflow), e.tick());
    assert_eq!(16, e.stack().len());
}

#[test]
fn fetch_past_memory_fails() {
    let mut e = loaded(&[0x1F, 0xFF]);
    e.tick().unwrap();
    assert_eq!(Err(EmulatorError::FetchOutOfBounds { pc: 0xFFF }), e.tick());
}

#[test]
fn draw_screen_writes_rgba() {
    let mut e = loaded(&[0xA0, 0x00, 0xD0, 0x01]);
    run(&mut e, 2);
    let mut frame = vec![7u8; 64 * 32 * 4];
    e.draw_screen(&mut frame);
    assert_eq!(&[0x5e, 0x48, 0xe8, 0xff], &frame[0..4]);
    assert_eq!(&[0x5e, 0x48, 0xe8, 0xff], &frame[12..16]);
    assert_eq!(&[0x00, 0x00, 0x00, 0xff], &frame[16..20]);
    assert_eq!(&[0x00, 0x00, 0x00, 0xff], &frame[frame.len() - 4..]);
}

#[test]
fn draw_screen_leaves_partial_tail() {
    let e = EmulatorState::new();
    let mut frame = vec![7u8; 6];
    e.draw_screen(&mut frame);
    assert_eq!(&[0, 0, 0, 0xff, 7, 7], &frame[..]);
}

#[test]
fn keypad_records_presses() {
    let mut e = EmulatorState::new();
    e.register_keypress(0xA, true).unwrap();
    assert!(e.is_key_pressed(0xA));
    assert!(!e.is_key_pressed(0xB));
    e.register_keypress(0xA, false).unwrap();
    assert!(!e.is_key_pressed(0xA));
    assert_eq!(Err(EmulatorError::InvalidKey { key: 16 }), e.register_keypress(16, true));
}

#[test]
fn timers_stay_at_zero() {
    let mut e = EmulatorState::new();
    e.decrement_timers();
    assert_eq!(0, e.delay_timer());
    assert_eq!(0, e.sound_timer());
    assert!(!e.sound_active());
}

#[test]
fn execute_applies_one_instruction() {
    let mut e = EmulatorState::new();
    e.execute(Instruction::SetRegister { x: 4, value: 0xFE }).unwrap();
    e.execute(Instruction::AddToRegister { x: 4, value: 0x03 }).unwrap();
    assert_eq!(0x01, e.register(4));
    assert_eq!(Err(EmulatorError::StackUnderflow), e.execute(Instruction::Return));
}

/// Runs `program` to its end and returns the interpreter.
fn run_all(program: &[u8]) -> EmulatorState {
    let mut e = loaded(program);
    run(&mut e, program.len() / 2);
    e
}

#[test]
fn skip_if_equal_immediate() {
    // V0 = 5; skip if V0 == 5 over "V1 = 1"; V2 = 2.
    let mut e = loaded(&[0x60, 0x05, 0x30, 0x05, 0x61, 0x01, 0x62, 0x02]);
    run(&mut e, 3);
    assert_eq!(0x208, e.program_counter());
    assert_eq!(0, e.register(1));
    assert_eq!(2, e.register(2));
}

#[test]
fn skip_if_not_equal_immediate() {
    let mut e = loaded(&[0x60, 0x05, 0x40, 0x05, 0x61, 0x01]);
    run(&mut e, 3);
    assert_eq!(1, e.register(1));
    let mut e = loaded(&[0x60, 0x05, 0x40, 0x06, 0x61, 0x01]);
    run(&mut e, 2);
    assert_eq!(0x206, e.program_counter());
}

#[test]
fn skip_on_register_comparison() {
    let mut e = loaded(&[0x60, 0x07, 0x61, 0x07, 0x50, 0x10]);
    run(&mut e, 3);
    assert_eq!(0x208, e.program_counter());
    let mut e = loaded(&[0x60, 0x07, 0x61, 0x07, 0x90, 0x10]);
    run(&mut e, 3);
    assert_eq!(0x206, e.program_counter());
    let mut e = loaded(&[0x60, 0x07, 0x61, 0x08, 0x90, 0x10]);
    run(&mut e, 3);
    assert_eq!(0x208, e.program_counter());
}

#[test]
fn logic_operations() {
    // V0 = 0b1100, V1 = 0b1010, VF = 9.
    let e = run_all(&[0x60, 0x0C, 0x61, 0x0A, 0x6F, 0x09, 0x80, 0x11]);
    assert_eq!(0x0E, e.register(0));
    assert_eq!(9, e.register(0xF));
    let e = run_all(&[0x60, 0x0C, 0x61, 0x0A, 0x80, 0x12]);
    assert_eq!(0x08, e.register(0));
    let e = run_all(&[0x60, 0x0C, 0x61, 0x0A, 0x80, 0x13]);
    assert_eq!(0x06, e.register(0));
    let e = run_all(&[0x61, 0x0A, 0x80, 0x10]);
    assert_eq!(0x0A, e.register(0));
}

#[test]
fn add_registers_sets_carry() {
    let e = run_all(&[0x60, 0xF0, 0x61, 0x20, 0x80, 0x14]);
    assert_eq!(0x10, e.register(0));
    assert_eq!(1, e.register(0xF));
    let e = run_all(&[0x60, 0x10, 0x61, 0x20, 0x6F, 0x05, 0x80, 0x14]);
    assert_eq!(0x30, e.register(0));
    assert_eq!(0, e.register(0xF));
}

#[test]
fn subtract_sets_no_borrow_flag() {
    let e = run_all(&[0x60, 0x30, 0x61, 0x10, 0x80, 0x15]);
    assert_eq!(0x20, e.register(0));
    assert_eq!(1, e.register(0xF));
    let e = run_all(&[0x60, 0x10, 0x61, 0x30, 0x80, 0x15]);
    assert_eq!(0xE0, e.register(0));
    assert_eq!(0, e.register(0xF));
    let e = run_all(&[0x60, 0x10, 0x61, 0x30, 0x80, 0x17]);
    assert_eq!(0x20, e.register(0));
    assert_eq!(1, e.register(0xF));
    let e = run_all(&[0x60, 0x30, 0x61, 0x10, 0x80, 0x17]);
    assert_eq!(0xE0, e.register(0));
    assert_eq!(0, e.register(0xF));
}

#[test]
fn shifts_move_bit_into_flag() {
    let e = run_all(&[0x60, 0x05, 0x80, 0x06]);
    assert_eq!(0x02, e.register(0));
    assert_eq!(1, e.register(0xF));
    let e = run_all(&[0x60, 0x81, 0x80, 0x0E]);
    assert_eq!(0x02, e.register(0));
    assert_eq!(1, e.register(0xF));
    let e = run_all(&[0x60, 0x41, 0x80, 0x0E]);
    assert_eq!(0x82, e.register(0));
    assert_eq!(0, e.register(0xF));
}

#[test]
fn flag_register_as_destination_keeps_flag() {
    // VF = 0xFF; VF += V1 (= 1): the carry, written last, wins.
    let e = run_all(&[0x6F, 0xFF, 0x61, 0x01, 0x8F, 0x14]);
    assert_eq!(1, e.register(0xF));
}

#[test]
fn jump_with_offset_adds_v0() {
    let mut e = loaded(&[0x60, 0x10, 0xB3, 0x00]);
    run(&mut e, 2);
    assert_eq!(0x310, e.program_counter());
}

#[test]
fn random_is_masked_and_deterministic() {
    let e = run_all(&[0xC0, 0xFF, 0xC1, 0xFF, 0xC2, 0x00, 0xC3, 0x0F]);
    assert_eq!(0x0F, e.register(0));
    assert_eq!(0xA5, e.register(1));
    assert_eq!(0x00, e.register(2));
    assert!(e.register(3) <= 0x0F);
    let mut e = loaded(&[0xC0, 0xFF]);
    e.seed_random(0x1234);
    run(&mut e, 1);
    assert_eq!(0x30, e.register(0));
}

#[test]
fn skip_on_key_state() {
    // V0 = 0xA; skip if key A down over "V1 = 1".
    let program = [0x60, 0x0A, 0xE0, 0x9E, 0x61, 0x01];
    let mut e = loaded(&program);
    e.register_keypress(0xA, true).unwrap();
    run(&mut e, 2);
    assert_eq!(0x206, e.program_counter());
    let mut e = loaded(&program);
    run(&mut e, 3);
    assert_eq!(1, e.register(1));
    let mut e = loaded(&[0x60, 0x0A, 0xE0, 0xA1]);
    run(&mut e, 2);
    assert_eq!(0x206, e.program_counter());
}

#[test]
fn key_skip_with_invalid_key_fails() {
    let mut e = loaded(&[0x60, 0x10, 0xE0, 0x9E]);
    run(&mut e, 1);
    assert_eq!(Err(EmulatorError::InvalidKey { key: 0x10 }), e.tick());
    assert_eq!(0x202, e.program_counter());
}

#[test]
fn wait_for_key_blocks_until_pressed() {
    let mut e = loaded(&[0xF3, 0x0A]);
    run(&mut e, 3);
    assert_eq!(0x200, e.program_counter());
    e.register_keypress(0xC, true).unwrap();
    e.register_keypress(0x7, true).unwrap();
    run(&mut e, 1);
    assert_eq!(0x202, e.program_counter());
    assert_eq!(0x7, e.register(3));
}

#[test]
fn timers_are_set_read_and_counted_down() {
    let mut e = loaded(&[0x60, 0x02, 0xF0, 0x15, 0xF0, 0x18, 0xF1, 0x07]);
    run(&mut e, 4);
    assert_eq!(2, e.delay_timer());
    assert_eq!(2, e.sound_timer());
    assert_eq!(2, e.register(1));
    assert!(e.sound_active());
    e.decrement_timers();
    assert_eq!(1, e.delay_timer());
    e.decrement_timers();
    e.decrement_timers();
    assert_eq!(0, e.delay_timer());
    assert_eq!(0, e.sound_timer());
    assert!(!e.sound_active());
}

#[test]
fn add_to_index_and_font_character() {
    let e = run_all(&[0xA1, 0x00, 0x60, 0x22, 0xF0, 0x1E]);
    assert_eq!(0x122, e.index_register());
    let e = run_all(&[0x60, 0x1B, 0xF0, 0x29]);
    assert_eq!(0x0B * 5, e.index_register());
}

#[test]
fn store_decimal_digits() {
    let e = run_all(&[0x60, 0xFE, 0xA3, 0x00, 0xF0, 0x33]);
    assert_eq!(&[2, 5, 4], &e.memory()[0x300..0x303]);
    let e = run_all(&[0x60, 0x07, 0xA3, 0x00, 0xF0, 0x33]);
    assert_eq!(&[0, 0, 7], &e.memory()[0x300..0x303]);
}

#[test]
fn store_and_load_registers() {
    let e = run_all(&[0x60, 0x11, 0x61, 0x22, 0x62, 0x33, 0xA3, 0x00, 0xF1, 0x55]);
    assert_eq!(&[0x11, 0x22, 0x00], &e.memory()[0x300..0x303]);
    assert_eq!(0x300, e.index_register());
    // Load two bytes of this program back into V0 and V1.
    let e = run_all(&[0xA2, 0x00, 0xF1, 0x65]);
    assert_eq!(0xA2, e.register(0));
    assert_eq!(0x00, e.register(1));
    assert_eq!(0, e.register(2));
}

#[test]
fn stores_below_program_area_fail() {
    let mut e = loaded(&[0xA0, 0x50, 0xF0, 0x55]);
    run(&mut e, 1);
    assert_eq!(Err(EmulatorError::ProtectedWrite { index: 0x50 }), e.tick());
    let mut e = loaded(&[0xA0, 0x00, 0xF0, 0x33]);
    run(&mut e, 1);
    assert_eq!(Err(EmulatorError::ProtectedWrite { index: 0 }), e.tick());
    assert_eq!(&font_table()[..], &e.memory()[0..80]);
}

#[test]
fn block_transfers_past_memory_fail() {
    let mut e = loaded(&[0xAF, 0xFE, 0xF2, 0x55]);
    run(&mut e, 1);
    assert_eq!(Err(EmulatorError::MemoryOutOfBounds { index: 0xFFE, count: 3 }), e.tick());
    let mut e = loaded(&[0xAF, 0xFF, 0xF1, 0x65]);
    run(&mut e, 1);
    assert_eq!(Err(EmulatorError::MemoryOutOfBounds { index: 0xFFF, count: 2 }), e.tick());
    let mut e = loaded(&[0xAF, 0xFE, 0xF0, 0x33]);
    run(&mut e, 1);
    assert_eq!(Err(EmulatorError::MemoryOutOfBounds { index: 0xFFE, count: 3 }), e.tick());
}
