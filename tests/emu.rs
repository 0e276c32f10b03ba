use chip8_core::{decode, Emu, EmuError, Instruction, SCREEN_HEIGHT, SCREEN_WIDTH};

fn run(emu: &mut Emu, op: u16) {
    emu.execute(op, 0).unwrap();
}

fn set_reg(emu: &mut Emu, x: u16, val: u8) {
    run(emu, 0x6000 | (x << 8) | val as u16);
}

fn lit(emu: &Emu, x: usize, y: usize) -> bool {
    emu.get_display()[x + SCREEN_WIDTH * y]
}

#[test]
fn new_machine_is_initialised() {
    let emu = Emu::new();
    assert_eq!(emu.program_counter(), 0x200);
    assert_eq!(emu.index_register(), 0);
    assert_eq!(emu.stack_depth(), 0);
    assert_eq!(emu.memory(0), 0xF0);
    assert_eq!(emu.memory(5), 0x20);
    assert_eq!(emu.memory(79), 0x80);
    assert_eq!(emu.memory(80), 0);
    assert_eq!(emu.memory(4095), 0);
    assert_eq!(emu.get_display().len(), SCREEN_WIDTH * SCREEN_HEIGHT);
    assert!(emu.get_display().iter().all(|c| !*c));
    for x in 0..16 {
        assert_eq!(emu.register(x), 0);
    }
}

#[test]
fn load_keeps_entry_point_and_first_step_fetches_there() {
    let mut emu = Emu::new();
    emu.load(&[0x60, 0x05, 0x61, 0x07]).unwrap();
    assert_eq!(emu.program_counter(), 0x200);
    assert_eq!(emu.memory(0x200), 0x60);
    assert_eq!(emu.memory(0x203), 0x07);
    emu.tick().unwrap();
    assert_eq!(emu.register(0), 5);
    assert_eq!(emu.register(1), 0);
    assert_eq!(emu.program_counter(), 0x202);
}

#[test]
fn load_rejects_oversized_program() {
    let mut emu = Emu::new();
    let big = vec![0xAAu8; 4096 - 0x200 + 1];
    assert_eq!(emu.load(&big), Err(EmuError::ProgramTooLarge));
    assert_eq!(emu.memory(0x200), 0);
    let fits = vec![0xAAu8; 4096 - 0x200];
    assert_eq!(emu.load(&fits), Ok(()));
    assert_eq!(emu.memory(0x200), 0xAA);
    assert_eq!(emu.memory(4095), 0xAA);
}

#[test]
fn load_overwrites_without_clearing_higher_memory() {
    let mut emu = Emu::new();
    emu.load(&[1, 2, 3, 4]).unwrap();
    emu.load(&[9]).unwrap();
    assert_eq!(emu.memory(0x200), 9);
    assert_eq!(emu.memory(0x201), 2);
    assert_eq!(emu.memory(0x203), 4);
}

#[test]
fn flag_rules_hold_for_every_pair() {
    let mut emu = Emu::new();
    for a in 0..=255u16 {
        for b in 0..=255u16 {
            let (a8, b8) = (a as u8, b as u8);
            set_reg(&mut emu, 1, a8);
            set_reg(&mut emu, 2, b8);
            run(&mut emu, 0x8124);
            assert_eq!(emu.register(1), a8.wrapping_add(b8));
            assert_eq!(emu.register(15), if a + b > 255 { 1 } else { 0 });

            set_reg(&mut emu, 1, a8);
            run(&mut emu, 0x8125);
            assert_eq!(emu.register(1), a8.wrapping_sub(b8));
            assert_eq!(emu.register(15), if a < b { 0 } else { 1 });

            set_reg(&mut emu, 1, a8);
            run(&mut emu, 0x8127);
            assert_eq!(emu.register(1), b8.wrapping_sub(a8));
            assert_eq!(emu.register(15), if b < a { 0 } else { 1 });
        }
        let a8 = a as u8;
        set_reg(&mut emu, 1, a8);
        run(&mut emu, 0x8126);
        assert_eq!(emu.register(1), a8 >> 1);
        assert_eq!(emu.register(15), a8 & 1);

        set_reg(&mut emu, 1, a8);
        run(&mut emu, 0x812E);
        assert_eq!(emu.register(1), a8 << 1);
        assert_eq!(emu.register(15), (a8 >> 7) & 1);
    }
}

#[test]
fn flag_register_as_target_keeps_the_flag() {
    let mut emu = Emu::new();
    set_reg(&mut emu, 15, 200);
    set_reg(&mut emu, 1, 100);
    run(&mut emu, 0x8F14);
    assert_eq!(emu.register(15), 1);
}

#[test]
fn add_immediate_wraps_without_flag() {
    let mut emu = Emu::new();
    set_reg(&mut emu, 15, 7);
    set_reg(&mut emu, 0, 0xFF);
    run(&mut emu, 0x7002);
    assert_eq!(emu.register(0), 1);
    assert_eq!(emu.register(15), 7);
}

#[test]
fn bitwise_and_move() {
    let mut emu = Emu::new();
    set_reg(&mut emu, 0, 0b1100);
    set_reg(&mut emu, 1, 0b1010);
    run(&mut emu, 0x8011);
    assert_eq!(emu.register(0), 0b1110);
    set_reg(&mut emu, 0, 0b1100);
    run(&mut emu, 0x8012);
    assert_eq!(emu.register(0), 0b1000);
    set_reg(&mut emu, 0, 0b1100);
    run(&mut emu, 0x8013);
    assert_eq!(emu.register(0), 0b0110);
    run(&mut emu, 0x8010);
    assert_eq!(emu.register(0), 0b1010);
}

#[test]
fn draw_wraps_round_both_edges() {
    let mut emu = Emu::new();
    // glyph 0 from the font: rows F0 90 90 90 F0
    run(&mut emu, 0xA000);
    set_reg(&mut emu, 0, 62);
    set_reg(&mut emu, 1, 30);
    run(&mut emu, 0xD015);
    assert_eq!(emu.register(15), 0);
    // top row at y = 30: columns 62, 63, 0, 1
    assert!(lit(&emu, 62, 30));
    assert!(lit(&emu, 63, 30));
    assert!(lit(&emu, 0, 30));
    assert!(lit(&emu, 1, 30));
    assert!(!lit(&emu, 2, 30));
    // second row at y = 31: only columns 62 and 1
    assert!(lit(&emu, 62, 31));
    assert!(!lit(&emu, 63, 31));
    assert!(lit(&emu, 1, 31));
    // rows three to five wrap to y = 0, 1, 2
    assert!(lit(&emu, 62, 0));
    assert!(lit(&emu, 1, 1));
    assert!(lit(&emu, 0, 2));
    assert_eq!(emu.get_display().iter().filter(|c| **c).count(), 14);
    // drawing it again erases it and reports the collision
    run(&mut emu, 0xD015);
    assert_eq!(emu.register(15), 1);
    assert!(emu.get_display().iter().all(|c| !*c));
}

#[test]
fn draw_with_large_coordinates_wraps() {
    let mut emu = Emu::new();
    run(&mut emu, 0xA000);
    set_reg(&mut emu, 0, 255);
    set_reg(&mut emu, 1, 255);
    run(&mut emu, 0xD011);
    // 255 % 64 = 63, 255 % 32 = 31; row F0 covers 63, 0, 1, 2
    assert!(lit(&emu, 63, 31));
    assert!(lit(&emu, 0, 31));
    assert!(lit(&emu, 2, 31));
    assert!(!lit(&emu, 3, 31));
}

#[test]
fn draw_past_end_of_memory_fails() {
    let mut emu = Emu::new();
    run(&mut emu, 0xAFFF);
    assert_eq!(emu.execute(0xD001, 0), Ok(()));
    assert_eq!(emu.execute(0xD002, 0), Err(EmuError::MemoryOutOfRange));
}

#[test]
fn cls_clears_the_screen() {
    let mut emu = Emu::new();
    run(&mut emu, 0xA000);
    run(&mut emu, 0xD005);
    assert!(emu.get_display().iter().any(|c| *c));
    run(&mut emu, 0x00E0);
    assert!(emu.get_display().iter().all(|c| !*c));
}

#[test]
fn call_then_ret_returns_after_the_call() {
    let mut emu = Emu::new();
    emu.load(&[0x22, 0x06, 0x00, 0x00, 0x00, 0x00, 0x00, 0xEE]).unwrap();
    emu.tick().unwrap();
    assert_eq!(emu.program_counter(), 0x206);
    assert_eq!(emu.stack_depth(), 1);
    emu.tick().unwrap();
    assert_eq!(emu.program_counter(), 0x202);
    assert_eq!(emu.stack_depth(), 0);
}

#[test]
fn ret_on_empty_stack_fails() {
    let mut emu = Emu::new();
    emu.load(&[0x00, 0xEE]).unwrap();
    assert_eq!(emu.tick(), Err(EmuError::StackUnderflow));
    assert_eq!(emu.program_counter(), 0x200);
}

#[test]
fn call_on_full_stack_fails() {
    let mut emu = Emu::new();
    // a subroutine that calls itself
    emu.load(&[0x22, 0x00]).unwrap();
    for depth in 1..=16 {
        emu.tick().unwrap();
        assert_eq!(emu.stack_depth(), depth);
    }
    assert_eq!(emu.tick(), Err(EmuError::StackOverflow));
    assert_eq!(emu.stack_depth(), 16);
    assert_eq!(emu.program_counter(), 0x200);
}

#[test]
fn store_then_load_registers_round_trips() {
    let mut emu = Emu::new();
    for x in 0..16u16 {
        set_reg(&mut emu, x, (x as u8) * 11 + 3);
    }
    run(&mut emu, 0xA300);
    run(&mut emu, 0xF755);
    assert_eq!(emu.memory(0x300), 3);
    assert_eq!(emu.memory(0x307), 80);
    assert_eq!(emu.memory(0x308), 0);
    for x in 0..16u16 {
        set_reg(&mut emu, x, 0);
    }
    run(&mut emu, 0xF765);
    for x in 0..8usize {
        assert_eq!(emu.register(x), (x as u8) * 11 + 3);
    }
    for x in 8..16usize {
        assert_eq!(emu.register(x), 0);
    }
    assert_eq!(emu.index_register(), 0x300);
}

#[test]
fn bcd_of_255() {
    let mut emu = Emu::new();
    set_reg(&mut emu, 4, 255);
    run(&mut emu, 0xA300);
    run(&mut emu, 0xF433);
    assert_eq!(emu.memory(0x300), 2);
    assert_eq!(emu.memory(0x301), 5);
    assert_eq!(emu.memory(0x302), 5);
}

#[test]
fn bcd_of_small_values() {
    let mut emu = Emu::new();
    set_reg(&mut emu, 0, 7);
    run(&mut emu, 0xA300);
    run(&mut emu, 0xF033);
    assert_eq!(emu.memory(0x300), 0);
    assert_eq!(emu.memory(0x301), 0);
    assert_eq!(emu.memory(0x302), 7);
    run(&mut emu, 0xAFFE);
    assert_eq!(emu.execute(0xF033, 0), Err(EmuError::MemoryOutOfRange));
}

#[test]
fn wait_key_repeats_until_a_key_is_pressed() {
    let mut emu = Emu::new();
    emu.load(&[0xF3, 0x0A, 0x00, 0x00]).unwrap();
    emu.tick().unwrap();
    assert_eq!(emu.program_counter(), 0x200);
    emu.tick().unwrap();
    assert_eq!(emu.program_counter(), 0x200);
    emu.keypress(9, true).unwrap();
    emu.keypress(7, true).unwrap();
    emu.tick().unwrap();
    assert_eq!(emu.program_counter(), 0x202);
    assert_eq!(emu.register(3), 7);
}

#[test]
fn two_instruction_program_end_to_end() {
    let mut emu = Emu::new();
    emu.load(&[0x6A, 0x02, 0x12, 0x00]).unwrap();
    emu.tick().unwrap();
    assert_eq!(emu.register(0xA), 2);
    assert_eq!(emu.program_counter(), 0x202);
    emu.tick().unwrap();
    // the jump goes back to the load instruction
    assert_eq!(emu.register(0xA), 2);
    assert_eq!(emu.program_counter(), 0x200);
    for _ in 0..10 {
        emu.tick().unwrap();
        assert_eq!(emu.register(0xA), 2);
    }
}

#[test]
fn jump_to_itself_stays_put() {
    let mut emu = Emu::new();
    emu.load(&[0x6A, 0x02, 0x12, 0x02]).unwrap();
    emu.tick().unwrap();
    emu.tick().unwrap();
    for _ in 0..10 {
        assert_eq!(emu.register(0xA), 2);
        assert_eq!(emu.program_counter(), 0x202);
        emu.tick().unwrap();
    }
}

#[test]
fn skips() {
    let mut emu = Emu::new();
    emu.load(&[0x60, 0x05, 0x30, 0x05, 0x00, 0x00, 0x40, 0x05, 0x61, 0x05, 0x50, 0x10, 0x00, 0x00, 0x90, 0x10]).unwrap();
    emu.tick().unwrap();
    emu.tick().unwrap();
    assert_eq!(emu.program_counter(), 0x206);
    emu.tick().unwrap();
    assert_eq!(emu.program_counter(), 0x208);
    emu.tick().unwrap();
    emu.tick().unwrap();
    assert_eq!(emu.program_counter(), 0x20E);
    emu.tick().unwrap();
    assert_eq!(emu.program_counter(), 0x210);
}

#[test]
fn key_skips() {
    let mut emu = Emu::new();
    set_reg(&mut emu, 0, 4);
    emu.keypress(4, true).unwrap();
    let pc = emu.program_counter();
    run(&mut emu, 0xE09E);
    assert_eq!(emu.program_counter(), pc + 2);
    run(&mut emu, 0xE0A1);
    assert_eq!(emu.program_counter(), pc + 2);
    emu.keypress(4, false).unwrap();
    run(&mut emu, 0xE0A1);
    assert_eq!(emu.program_counter(), pc + 4);
    set_reg(&mut emu, 0, 16);
    assert_eq!(emu.execute(0xE09E, 0), Err(EmuError::KeyOutOfRange));
    assert_eq!(emu.execute(0xE0A1, 0), Err(EmuError::KeyOutOfRange));
}

#[test]
fn keypress_out_of_range_fails() {
    let mut emu = Emu::new();
    assert_eq!(emu.keypress(15, true), Ok(()));
    assert_eq!(emu.keypress(16, true), Err(EmuError::KeyOutOfRange));
}

#[test]
fn unknown_opcodes_fail_and_change_nothing() {
    let mut emu = Emu::new();
    emu.load(&[0x80, 0x08]).unwrap();
    assert_eq!(emu.tick(), Err(EmuError::UnknownOpcode(0x8008)));
    assert_eq!(emu.program_counter(), 0x200);
    for op in [0x0123u16, 0x5001, 0x800F, 0x9001, 0xE000, 0xF000, 0xF0FF] {
        assert_eq!(emu.execute(op, 0), Err(EmuError::UnknownOpcode(op)));
        assert_eq!(decode(op), None);
    }
}

#[test]
fn fetch_past_end_of_memory_fails() {
    let mut emu = Emu::new();
    run(&mut emu, 0x1FFF);
    assert_eq!(emu.tick(), Err(EmuError::MemoryOutOfRange));
    assert_eq!(emu.program_counter(), 0xFFF);
}

#[test]
fn timers_count_down_to_zero() {
    let mut emu = Emu::new();
    set_reg(&mut emu, 0, 2);
    run(&mut emu, 0xF015);
    set_reg(&mut emu, 0, 1);
    run(&mut emu, 0xF018);
    assert_eq!(emu.delay_timer(), 2);
    assert_eq!(emu.sound_timer(), 1);
    emu.tick_timers();
    assert_eq!(emu.delay_timer(), 1);
    assert_eq!(emu.sound_timer(), 0);
    emu.tick_timers();
    emu.tick_timers();
    assert_eq!(emu.delay_timer(), 0);
    assert_eq!(emu.sound_timer(), 0);
    set_reg(&mut emu, 0, 9);
    run(&mut emu, 0xF015);
    run(&mut emu, 0xF107);
    assert_eq!(emu.register(1), 9);
}

#[test]
fn index_register_instructions() {
    let mut emu = Emu::new();
    run(&mut emu, 0xAFFF);
    set_reg(&mut emu, 0, 0xFF);
    run(&mut emu, 0xF01E);
    assert_eq!(emu.index_register(), 0x10FE);
    set_reg(&mut emu, 0, 0xA);
    run(&mut emu, 0xF029);
    assert_eq!(emu.index_register(), 50);
    assert_eq!(emu.memory(50), 0xF0);
}

#[test]
fn jump_with_offset() {
    let mut emu = Emu::new();
    set_reg(&mut emu, 0, 4);
    run(&mut emu, 0xB300);
    assert_eq!(emu.program_counter(), 0x304);
}

#[test]
fn random_is_masked() {
    let mut emu = Emu::new();
    emu.execute(0xC20F, 0xAB).unwrap();
    assert_eq!(emu.register(2), 0x0B);
    emu.load(&[0xC0, 0x0F]).unwrap();
    emu.tick().unwrap();
    assert_eq!(emu.register(0) & 0xF0, 0);
    assert_eq!(emu.program_counter(), 0x202);
}

#[test]
fn reset_restores_initial_state() {
    let mut emu = Emu::new();
    emu.load(&[0x60, 0x05, 0x22, 0x00]).unwrap();
    emu.tick().unwrap();
    emu.tick().unwrap();
    emu.keypress(3, true).unwrap();
    emu.reset();
    assert_eq!(emu.program_counter(), 0x200);
    assert_eq!(emu.register(0), 0);
    assert_eq!(emu.stack_depth(), 0);
    assert_eq!(emu.memory(0x200), 0);
    assert_eq!(emu.memory(0), 0xF0);
}

#[test]
fn decode_examples() {
    assert_eq!(decode(0x0000), Some(Instruction::Nop));
    assert_eq!(decode(0x00E0), Some(Instruction::Cls));
    assert_eq!(decode(0x00EE), Some(Instruction::Ret));
    assert_eq!(decode(0x1ABC), Some(Instruction::Jmp { addr: 0xABC }));
    assert_eq!(decode(0x8AB4), Some(Instruction::Add { x: 0xA, y: 0xB }));
    assert_eq!(decode(0x8A0E), Some(Instruction::Shl { x: 0xA }));
    assert_eq!(decode(0xD123), Some(Instruction::Draw { x: 1, y: 2, n: 3 }));
    assert_eq!(decode(0xF565), Some(Instruction::LoadRegs { x: 5 }));
    assert_eq!(decode(0xC3FF), Some(Instruction::Rand { x: 3, nn: 0xFF }));
}
