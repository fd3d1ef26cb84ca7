use chip8::chip::Chip_8;
use chip8::machine::Chip8Error;
use chip8::machine::RunState;

#[allow(non_snake_case)]
#[test]
fn execute_instruction_should_catchOpCode() {
    println!("{}", 0xF);
}

#[test]
fn init_puts_font_low_and_pc_at_program_start() {
    let c = Chip_8::init();
    assert_eq!(c.get_program_counter(), 0x200);
    assert_eq!(c.get_index_register(), 0);
    assert_eq!(c.get_delay_timer(), 0);
    assert_eq!(c.get_sound_timer(), 0);
    assert_eq!(c.get_stack_depth(), 0);
    assert_eq!(c.get_run_state(), RunState::Running);
    // Glyph 0 starts the table; glyph F ends it.
    assert_eq!(c.read_memory(0), 0xF0);
    assert_eq!(c.read_memory(4), 0xF0);
    assert_eq!(c.read_memory(75), 0xF0);
    assert_eq!(c.read_memory(79), 0x80);
    // Memory above the font table is zeroed.
    assert_eq!(c.read_memory(80), 0);
    assert_eq!(c.read_memory(0x200), 0);
    for i in 0..16 {
        assert_eq!(c.get_register(i), 0);
    }
    assert!(c.get_graphics_buffer().iter().all(|&p| p == 0));
}

#[test]
fn font_array_matches_what_init_preloads() {
    let font = Chip_8::get_font_array();
    let c = Chip_8::init();
    assert_eq!(font.len(), 80);
    for j in 0..80 {
        assert_eq!(font[j], c.read_memory(j));
    }
    // Glyph 1 is the narrow digit: 20 60 20 20 70.
    assert_eq!(&font[5..10], &[0x20, 0x60, 0x20, 0x20, 0x70]);
}

#[test]
fn load_program_of_exactly_3584_bytes_succeeds() {
    let mut c = Chip_8::init();
    let rom = vec![0xAB; 3584];
    assert!(c.load_program(&rom).is_ok());
    assert_eq!(c.read_memory(0x200), 0xAB);
    assert_eq!(c.read_memory(0xFFF), 0xAB);
    // The font table is preserved.
    assert_eq!(c.read_memory(0), 0xF0);
}

#[test]
fn load_program_of_3585_bytes_fails_with_rom_too_large() {
    let mut c = Chip_8::init();
    let rom = vec![0xAB; 3585];
    assert_eq!(c.load_program(&rom), Err(Chip8Error::RomTooLarge));
    // Nothing was copied.
    assert_eq!(c.read_memory(0x200), 0);
}

#[test]
fn plain_instructions_advance_pc_by_two() {
    let mut c = Chip_8::init();
    assert!(c.execute_instruction(0x6012).is_ok());
    assert_eq!(c.get_register(0), 0x12);
    assert_eq!(c.get_program_counter(), 0x202);
    assert!(c.execute_instruction(0xA123).is_ok());
    assert_eq!(c.get_index_register(), 0x123);
    assert_eq!(c.get_program_counter(), 0x204);
}

#[test]
fn jumps_set_pc_absolutely() {
    let mut c = Chip_8::init();
    assert!(c.execute_instruction(0x1234).is_ok());
    assert_eq!(c.get_program_counter(), 0x234);
    // BNNN jumps to V0 + NNN.
    assert!(c.execute_instruction(0x6004).is_ok());
    assert!(c.execute_instruction(0xB300).is_ok());
    assert_eq!(c.get_program_counter(), 0x304);
}

#[test]
fn skips_advance_by_four_when_their_condition_holds() {
    let mut c = Chip_8::init();
    // 3XKK: V0 == 0 == KK, so skip.
    assert!(c.execute_instruction(0x3000).is_ok());
    assert_eq!(c.get_program_counter(), 0x204);
    // 3XKK: V0 != 7, no skip.
    assert!(c.execute_instruction(0x3007).is_ok());
    assert_eq!(c.get_program_counter(), 0x206);
    // 4XKK: V0 != 7, skip.
    assert!(c.execute_instruction(0x4007).is_ok());
    assert_eq!(c.get_program_counter(), 0x20A);
    // 5XY0: V1 == V2, skip.
    assert!(c.execute_instruction(0x5120).is_ok());
    assert_eq!(c.get_program_counter(), 0x20E);
    // 9XY0: V1 == V2, no skip.
    assert!(c.execute_instruction(0x9120).is_ok());
    assert_eq!(c.get_program_counter(), 0x210);
}

#[test]
fn add_with_carry_sets_vf_on_overflow() {
    let mut c = Chip_8::init();
    assert!(c.execute_instruction(0x60FF).is_ok());
    assert!(c.execute_instruction(0x6101).is_ok());
    assert!(c.execute_instruction(0x8014).is_ok());
    assert_eq!(c.get_register(0), 0x00);
    assert_eq!(c.get_register(0xF), 1);
}

#[test]
fn add_without_carry_clears_vf() {
    let mut c = Chip_8::init();
    assert!(c.execute_instruction(0x6001).is_ok());
    assert!(c.execute_instruction(0x6101).is_ok());
    assert!(c.execute_instruction(0x8014).is_ok());
    assert_eq!(c.get_register(0), 0x02);
    assert_eq!(c.get_register(0xF), 0);
}

#[test]
fn sub_with_borrow_clears_vf() {
    let mut c = Chip_8::init();
    assert!(c.execute_instruction(0x6001).is_ok());
    assert!(c.execute_instruction(0x6102).is_ok());
    assert!(c.execute_instruction(0x8015).is_ok());
    assert_eq!(c.get_register(0), 0xFF);
    assert_eq!(c.get_register(0xF), 0);
}

#[test]
fn sub_without_borrow_sets_vf() {
    let mut c = Chip_8::init();
    assert!(c.execute_instruction(0x6002).is_ok());
    assert!(c.execute_instruction(0x6101).is_ok());
    assert!(c.execute_instruction(0x8015).is_ok());
    assert_eq!(c.get_register(0), 0x01);
    assert_eq!(c.get_register(0xF), 1);
}

#[test]
fn reverse_sub_and_bitwise_ops() {
    let mut c = Chip_8::init();
    // 8XY7: Vx := Vy - Vx; Vy=5, Vx=3 -> 2, no borrow.
    assert!(c.execute_instruction(0x6003).is_ok());
    assert!(c.execute_instruction(0x6105).is_ok());
    assert!(c.execute_instruction(0x8017).is_ok());
    assert_eq!(c.get_register(0), 2);
    assert_eq!(c.get_register(0xF), 1);
    // OR, AND, XOR.
    let mut c = Chip_8::init();
    assert!(c.execute_instruction(0x60F0).is_ok());
    assert!(c.execute_instruction(0x6133).is_ok());
    assert!(c.execute_instruction(0x8011).is_ok());
    assert_eq!(c.get_register(0), 0xF3);
    assert!(c.execute_instruction(0x8012).is_ok());
    assert_eq!(c.get_register(0), 0x33);
    assert!(c.execute_instruction(0x8013).is_ok());
    assert_eq!(c.get_register(0), 0x00);
    // 8XY0 copies.
    assert!(c.execute_instruction(0x8010).is_ok());
    assert_eq!(c.get_register(0), 0x33);
}

#[test]
fn shifts_report_the_shifted_out_bit_in_vf() {
    let mut c = Chip_8::init();
    assert!(c.execute_instruction(0x6005).is_ok());
    assert!(c.execute_instruction(0x8006).is_ok());
    assert_eq!(c.get_register(0), 2);
    assert_eq!(c.get_register(0xF), 1);
    assert!(c.execute_instruction(0x6081).is_ok());
    assert!(c.execute_instruction(0x800E).is_ok());
    assert_eq!(c.get_register(0), 2);
    assert_eq!(c.get_register(0xF), 1);
}

#[test]
fn flag_register_as_target_keeps_the_flag() {
    let mut c = Chip_8::init();
    // 8F14 writes both the sum and the flag to VF; the flag wins.
    assert!(c.execute_instruction(0x6F01).is_ok());
    assert!(c.execute_instruction(0x6101).is_ok());
    assert!(c.execute_instruction(0x8F14).is_ok());
    assert_eq!(c.get_register(0xF), 0);
}

#[test]
fn call_and_return_round_trip() {
    let mut c = Chip_8::init();
    // 2300 at 0x200; 00EE at 0x300.
    let mut rom = vec![0u8; 0x102];
    rom[0] = 0x23;
    rom[1] = 0x00;
    rom[0x100] = 0x00;
    rom[0x101] = 0xEE;
    assert!(c.load_program(&rom).is_ok());
    assert!(c.run_cycle().is_ok());
    assert_eq!(c.get_program_counter(), 0x300);
    assert_eq!(c.get_stack_depth(), 1);
    assert!(c.run_cycle().is_ok());
    assert_eq!(c.get_program_counter(), 0x202);
    assert_eq!(c.get_stack_depth(), 0);
}

#[test]
fn draw_sets_pixels_and_drawing_twice_restores_them() {
    let mut c = Chip_8::init();
    // I = 0: glyph 0 (F0 90 90 90 F0); draw it at (0, 0), height 5.
    assert!(c.execute_instruction(0xA000).is_ok());
    assert!(c.execute_instruction(0xD015).is_ok());
    assert_eq!(c.get_register(0xF), 0);
    let buf = c.get_graphics_buffer();
    assert_eq!(buf[0], 1);
    assert_eq!(buf[3], 1);
    assert_eq!(buf[4], 0);
    assert_eq!(buf[64], 1);
    assert_eq!(buf[65], 0);
    assert_eq!(buf[67], 1);
    assert_eq!(buf[4 * 64], 1);
    // The same draw again: collision, and every pixel back to zero.
    assert!(c.execute_instruction(0xD015).is_ok());
    assert_eq!(c.get_register(0xF), 1);
    assert!(c.get_graphics_buffer().iter().all(|&p| p == 0));
}

#[test]
fn draw_wraps_horizontally() {
    let mut c = Chip_8::init();
    // Draw glyph 0 at column 62: its left bits land at 62, 63, 0, 1.
    assert!(c.execute_instruction(0xA000).is_ok());
    assert!(c.execute_instruction(0x603E).is_ok());
    assert!(c.execute_instruction(0xD011).is_ok());
    let buf = c.get_graphics_buffer();
    assert_eq!(buf[62], 1);
    assert_eq!(buf[63], 1);
    assert_eq!(buf[0], 1);
    assert_eq!(buf[1], 1);
    assert_eq!(buf[2], 0);
}

#[test]
fn clear_screen_zeroes_a_drawn_display_and_advances_pc() {
    let mut c = Chip_8::init();
    assert!(c.execute_instruction(0xA000).is_ok());
    assert!(c.execute_instruction(0xD015).is_ok());
    assert!(c.get_graphics_buffer().iter().any(|&p| p == 1));
    let pc = c.get_program_counter();
    assert!(c.execute_instruction(0x00E0).is_ok());
    assert!(c.get_graphics_buffer().iter().all(|&p| p == 0));
    assert_eq!(c.get_program_counter(), pc + 2);
}

#[test]
fn awaiting_key_blocks_until_a_key_arrives() {
    let mut c = Chip_8::init();
    // F10A: wait for a key into V1.
    let rom = vec![0xF1, 0x0A, 0x60, 0x07];
    assert!(c.load_program(&rom).is_ok());
    assert!(c.run_cycle().is_ok());
    assert_eq!(c.get_run_state(), RunState::AwaitingKey(1));
    assert_eq!(c.get_program_counter(), 0x200);
    // Cycles with an empty keypad change nothing.
    for _ in 0..5 {
        assert!(c.run_cycle().is_ok());
        assert_eq!(c.get_program_counter(), 0x200);
        for i in 0..16 {
            assert_eq!(c.get_register(i), 0);
        }
        assert_eq!(c.get_run_state(), RunState::AwaitingKey(1));
    }
    // A pressed key completes the instruction on the next cycle.
    c.set_keys(&vec!['5']);
    assert!(c.run_cycle().is_ok());
    assert_eq!(c.get_register(1), 5);
    assert_eq!(c.get_program_counter(), 0x202);
    assert_eq!(c.get_run_state(), RunState::Running);
}

#[test]
fn timers_move_only_under_tick_timers() {
    let mut c = Chip_8::init();
    // Delay := 0x20, sound := 3.
    assert!(c.execute_instruction(0x6020).is_ok());
    assert!(c.execute_instruction(0xF015).is_ok());
    assert!(c.execute_instruction(0x6103).is_ok());
    assert!(c.execute_instruction(0xF118).is_ok());
    // A program of register loads, long enough to cycle through.
    let rom = vec![0x6A, 0x00].repeat(20);
    assert!(c.load_program(&rom).is_ok());
    for _ in 0..10 {
        assert!(c.run_cycle().is_ok());
    }
    assert_eq!(c.get_delay_timer(), 0x20);
    assert_eq!(c.get_sound_timer(), 3);
    // Ticks decrement, floor at zero, and beep exactly on one-to-zero.
    assert!(!c.tick_timers());
    assert_eq!(c.get_delay_timer(), 0x1F);
    assert_eq!(c.get_sound_timer(), 2);
    assert!(!c.tick_timers());
    assert_eq!(c.get_sound_timer(), 1);
    assert!(c.tick_timers());
    assert_eq!(c.get_sound_timer(), 0);
    assert!(!c.tick_timers());
    assert_eq!(c.get_sound_timer(), 0);
}

#[test]
fn delay_timer_is_readable_through_fx07() {
    let mut c = Chip_8::init();
    assert!(c.execute_instruction(0x6005).is_ok());
    assert!(c.execute_instruction(0xF015).is_ok());
    assert!(c.execute_instruction(0xF107).is_ok());
    assert_eq!(c.get_register(1), 5);
}

#[test]
fn fx1e_adds_into_the_index_register() {
    let mut c = Chip_8::init();
    assert!(c.execute_instruction(0xA100).is_ok());
    assert!(c.execute_instruction(0x6005).is_ok());
    assert!(c.execute_instruction(0xF01E).is_ok());
    assert_eq!(c.get_index_register(), 0x105);
}

#[test]
fn fx29_points_at_the_font_glyph() {
    let mut c = Chip_8::init();
    assert!(c.execute_instruction(0x600A).is_ok());
    assert!(c.execute_instruction(0xF029).is_ok());
    assert_eq!(c.get_index_register(), 50);
    assert_eq!(c.read_memory(50), 0xF0);
}

#[test]
fn fx33_stores_three_decimal_digits() {
    let mut c = Chip_8::init();
    assert!(c.execute_instruction(0x63EA).is_ok());
    assert!(c.execute_instruction(0xA500).is_ok());
    assert!(c.execute_instruction(0xF333).is_ok());
    assert_eq!(c.read_memory(0x500), 2);
    assert_eq!(c.read_memory(0x501), 3);
    assert_eq!(c.read_memory(0x502), 4);
}

#[test]
fn fx55_and_fx65_round_trip_registers_through_memory() {
    let mut c = Chip_8::init();
    assert!(c.execute_instruction(0x6011).is_ok());
    assert!(c.execute_instruction(0x6122).is_ok());
    assert!(c.execute_instruction(0x6233).is_ok());
    assert!(c.execute_instruction(0xA600).is_ok());
    assert!(c.execute_instruction(0xF255).is_ok());
    assert_eq!(c.read_memory(0x600), 0x11);
    assert_eq!(c.read_memory(0x601), 0x22);
    assert_eq!(c.read_memory(0x602), 0x33);
    assert_eq!(c.get_index_register(), 0x600);
    // Overwrite, then load back.
    assert!(c.execute_instruction(0x6000).is_ok());
    assert!(c.execute_instruction(0x6100).is_ok());
    assert!(c.execute_instruction(0x6200).is_ok());
    assert!(c.execute_instruction(0xF265).is_ok());
    assert_eq!(c.get_register(0), 0x11);
    assert_eq!(c.get_register(1), 0x22);
    assert_eq!(c.get_register(2), 0x33);
}

#[test]
fn random_bytes_are_masked_and_reproducible() {
    let mut a = Chip_8::init();
    let mut b = Chip_8::init();
    assert!(a.execute_instruction(0xC00F).is_ok());
    assert!(b.execute_instruction(0xC00F).is_ok());
    assert_eq!(a.get_register(0), b.get_register(0));
    assert_eq!(a.get_register(0) & 0xF0, 0);
}

#[test]
fn key_skips_test_the_named_key() {
    let mut c = Chip_8::init();
    c.set_keys(&vec!['7']);
    assert!(c.execute_instruction(0x6007).is_ok());
    assert!(c.execute_instruction(0xE09E).is_ok());
    assert_eq!(c.get_program_counter(), 0x206);
    assert!(c.execute_instruction(0xE0A1).is_ok());
    assert_eq!(c.get_program_counter(), 0x208);
    assert!(c.execute_instruction(0x6003).is_ok());
    assert!(c.execute_instruction(0xE09E).is_ok());
    assert_eq!(c.get_program_counter(), 0x20C);
}

#[test]
fn returning_with_an_empty_stack_underflows() {
    let mut c = Chip_8::init();
    let pc = c.get_program_counter();
    assert_eq!(c.execute_instruction(0x00EE), Err(Chip8Error::StackUnderflow));
    assert_eq!(c.get_program_counter(), pc);
}

#[test]
fn seventeenth_nested_call_overflows_the_stack() {
    let mut c = Chip_8::init();
    for _ in 0..16 {
        assert!(c.execute_instruction(0x2300).is_ok());
    }
    assert_eq!(c.get_stack_depth(), 16);
    assert_eq!(c.execute_instruction(0x2300), Err(Chip8Error::StackOverflow));
    assert_eq!(c.get_stack_depth(), 16);
}

#[test]
fn undefined_words_are_reported_with_the_word() {
    let mut c = Chip_8::init();
    assert_eq!(c.execute_instruction(0x5123), Err(Chip8Error::UnsupportedOpcode(0x5123)));
    assert_eq!(c.execute_instruction(0xFFFF), Err(Chip8Error::UnsupportedOpcode(0xFFFF)));
    assert_eq!(c.execute_instruction(0x0123), Err(Chip8Error::UnsupportedOpcode(0x0123)));
    assert_eq!(c.execute_instruction(0x8008), Err(Chip8Error::UnsupportedOpcode(0x8008)));
    // The machine did not move.
    assert_eq!(c.get_program_counter(), 0x200);
}

#[test]
fn stores_reaching_past_memory_are_refused() {
    let mut c = Chip_8::init();
    assert!(c.execute_instruction(0xAFFD).is_ok());
    let pc = c.get_program_counter();
    assert_eq!(c.execute_instruction(0xF355), Err(Chip8Error::MemoryAddressOutOfRange));
    assert_eq!(c.execute_instruction(0xF365), Err(Chip8Error::MemoryAddressOutOfRange));
    assert_eq!(c.get_program_counter(), pc);
    // FX33 needs three bytes from I on.
    assert!(c.execute_instruction(0xAFFE).is_ok());
    assert_eq!(c.execute_instruction(0xF033), Err(Chip8Error::MemoryAddressOutOfRange));
    // A draw whose sprite rows leave memory is refused too.
    assert!(c.execute_instruction(0xAFFF).is_ok());
    assert_eq!(c.execute_instruction(0xD012), Err(Chip8Error::MemoryAddressOutOfRange));
}

#[test]
fn fetching_past_memory_is_refused() {
    let mut c = Chip_8::init();
    assert!(c.execute_instruction(0x1FFF).is_ok());
    assert_eq!(c.run_cycle(), Err(Chip8Error::MemoryAddressOutOfRange));
    assert_eq!(c.get_program_counter(), 0xFFF);
}

#[test]
fn error_kinds_are_distinct_values() {
    assert_ne!(Chip8Error::RomUnreadable, Chip8Error::RomTooLarge);
    assert_ne!(Chip8Error::StackOverflow, Chip8Error::StackUnderflow);
    assert_eq!(
        Chip8Error::UnsupportedOpcode(0x5123),
        Chip8Error::UnsupportedOpcode(0x5123)
    );
    assert_ne!(
        Chip8Error::UnsupportedOpcode(0x5123),
        Chip8Error::UnsupportedOpcode(0x5124)
    );
}
