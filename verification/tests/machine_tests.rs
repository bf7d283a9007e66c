use chip8::error::Chip8Error;
use chip8::machine::CHIP8;

/// A machine with the given program loaded at 0x200.
fn boot(program: Vec<u8>) -> CHIP8 {
    let mut chip = CHIP8::new();
    chip.load_rom(&program).unwrap();
    chip
}

#[test]
fn new_machine_initial_state() {
    let chip = CHIP8::new();
    assert_eq!(chip.program_counter(), 0x200);
    assert_eq!(chip.index_register(), 0);
    assert_eq!(chip.stack_depth(), 0);
    assert_eq!(chip.delay_timer(), 0);
    assert_eq!(chip.sound_timer(), 0);
    for i in 0..16u8 {
        assert_eq!(chip.read_register(i).unwrap(), 0);
        assert_eq!(chip.get_key(i).unwrap(), false);
    }
    // The font table sits at 0x50..0xA0; everything around it is zero.
    assert_eq!(chip.read_memory(0x50).unwrap(), 0xF0);
    assert_eq!(chip.read_memory(0x51).unwrap(), 0x90);
    assert_eq!(chip.read_memory(0x9F).unwrap(), 0x80);
    assert_eq!(chip.read_memory(0x4F).unwrap(), 0);
    assert_eq!(chip.read_memory(0xA0).unwrap(), 0);
    for row in 0..32 {
        for col in 0..64 {
            assert_eq!(chip.get_pixel(row, col).unwrap(), false);
        }
    }
}

#[test]
fn load_rom_copies_bytes_at_0x200() {
    let chip = boot(vec![0xAA, 0xBB, 0xCC]);
    assert_eq!(chip.read_memory(0x200).unwrap(), 0xAA);
    assert_eq!(chip.read_memory(0x201).unwrap(), 0xBB);
    assert_eq!(chip.read_memory(0x202).unwrap(), 0xCC);
    assert_eq!(chip.read_memory(0x1FF).unwrap(), 0);
    assert_eq!(chip.read_memory(0x203).unwrap(), 0);
}

#[test]
fn load_rom_accepts_empty_image() {
    let mut chip = CHIP8::new();
    assert_eq!(chip.load_rom(&Vec::new()), Ok(()));
    assert_eq!(chip.read_memory(0x200).unwrap(), 0);
}

#[test]
fn load_rom_rejects_oversized_image() {
    let mut chip = CHIP8::new();
    let too_big = vec![0u8; 4096 - 0x200 + 1];
    assert_eq!(
        chip.load_rom(&too_big),
        Err(Chip8Error::ProgramTooLarge(4096 - 0x200 + 1))
    );
    // The rejected image changed nothing.
    assert_eq!(chip.read_memory(0x200).unwrap(), 0);
    // The largest image that fits is accepted.
    let max = vec![0x42u8; 4096 - 0x200];
    assert_eq!(chip.load_rom(&max), Ok(()));
    assert_eq!(chip.read_memory(0xFFF).unwrap(), 0x42);
}

#[test]
fn add_register_sets_carry() {
    // ADD V5, V6 with 250 + 10: wraps to 4, carry set.
    let mut chip = boot(vec![0x85, 0x64]);
    chip.write_register(5, 250).unwrap();
    chip.write_register(6, 10).unwrap();
    chip.step(0).unwrap();
    assert_eq!(chip.read_register(5).unwrap(), 4);
    assert_eq!(chip.read_register(0xF).unwrap(), 1);
}

#[test]
fn add_register_no_carry() {
    // ADD V5, V6 with 10 + 10: 20, carry clear.
    let mut chip = boot(vec![0x85, 0x64]);
    chip.write_register(5, 10).unwrap();
    chip.write_register(6, 10).unwrap();
    chip.step(0).unwrap();
    assert_eq!(chip.read_register(5).unwrap(), 20);
    assert_eq!(chip.read_register(0xF).unwrap(), 0);
}

#[test]
fn sub_register_with_borrow() {
    // SUB V5, V6 with 5 - 10: wraps to 251, VF = 0 (borrow occurred).
    let mut chip = boot(vec![0x85, 0x65]);
    chip.write_register(5, 5).unwrap();
    chip.write_register(6, 10).unwrap();
    chip.step(0).unwrap();
    assert_eq!(chip.read_register(5).unwrap(), 251);
    assert_eq!(chip.read_register(0xF).unwrap(), 0);
}

#[test]
fn sub_register_without_borrow() {
    // SUB V5, V6 with 10 - 5: 5, VF = 1 (no borrow).
    let mut chip = boot(vec![0x85, 0x65]);
    chip.write_register(5, 10).unwrap();
    chip.write_register(6, 5).unwrap();
    chip.step(0).unwrap();
    assert_eq!(chip.read_register(5).unwrap(), 5);
    assert_eq!(chip.read_register(0xF).unwrap(), 1);
}

#[test]
fn subn_register() {
    // SUBN V5, V6: V5 = V6 - V5; VF = 1 iff V6 >= V5.
    let mut chip = boot(vec![0x85, 0x67]);
    chip.write_register(5, 3).unwrap();
    chip.write_register(6, 10).unwrap();
    chip.step(0).unwrap();
    assert_eq!(chip.read_register(5).unwrap(), 7);
    assert_eq!(chip.read_register(0xF).unwrap(), 1);
}

#[test]
fn shr_records_shifted_out_bit() {
    // SHR V5 with 0b00000011: becomes 0b00000001, VF = 1.
    let mut chip = boot(vec![0x85, 0x66]);
    chip.write_register(5, 0b0000_0011).unwrap();
    chip.step(0).unwrap();
    assert_eq!(chip.read_register(5).unwrap(), 0b0000_0001);
    assert_eq!(chip.read_register(0xF).unwrap(), 1);
}

#[test]
fn shl_records_shifted_out_bit() {
    // SHL V5 with 0x81: becomes 0x02, VF = 1.
    let mut chip = boot(vec![0x85, 0x6E]);
    chip.write_register(5, 0x81).unwrap();
    chip.step(0).unwrap();
    assert_eq!(chip.read_register(5).unwrap(), 0x02);
    assert_eq!(chip.read_register(0xF).unwrap(), 1);
}

#[test]
fn add_immediate_adds_not_overwrites() {
    // ADD V5, 0x05 on V5 = 250: wraps to 255 (not set to 5).
    let mut chip = boot(vec![0x75, 0x05]);
    chip.write_register(5, 250).unwrap();
    chip.step(0).unwrap();
    assert_eq!(chip.read_register(5).unwrap(), 255);
    // No flag side effect.
    assert_eq!(chip.read_register(0xF).unwrap(), 0);
}

#[test]
fn add_immediate_wraps() {
    let mut chip = boot(vec![0x75, 0x02]);
    chip.write_register(5, 0xFF).unwrap();
    chip.step(0).unwrap();
    assert_eq!(chip.read_register(5).unwrap(), 1);
}

#[test]
fn load_and_logic_ops() {
    // LD V1, 0xAA; LD V2, 0x0F; OR V1, V2; AND V1, V2; XOR V1, V2.
    let mut chip = boot(vec![0x61, 0xAA, 0x62, 0x0F, 0x81, 0x21, 0x81, 0x22, 0x81, 0x23]);
    chip.step(0).unwrap();
    chip.step(0).unwrap();
    assert_eq!(chip.read_register(1).unwrap(), 0xAA);
    assert_eq!(chip.read_register(2).unwrap(), 0x0F);
    chip.step(0).unwrap();
    assert_eq!(chip.read_register(1).unwrap(), 0xAF);
    chip.step(0).unwrap();
    assert_eq!(chip.read_register(1).unwrap(), 0x0F);
    chip.step(0).unwrap();
    assert_eq!(chip.read_register(1).unwrap(), 0x00);
}

#[test]
fn copy_register() {
    // LD V3, V7.
    let mut chip = boot(vec![0x83, 0x70]);
    chip.write_register(7, 99).unwrap();
    chip.step(0).unwrap();
    assert_eq!(chip.read_register(3).unwrap(), 99);
}

#[test]
fn draw_twice_clears_and_reports_collision() {
    // An 8x5 box sprite at 0x300, drawn twice at (0, 0):
    // LD I, 0x300; DRW V0, V1, 5; DRW V0, V1, 5.
    let mut chip = boot(vec![0xA3, 0x00, 0xD0, 0x15, 0xD0, 0x15]);
    let sprite = [0xFFu8, 0x81, 0x81, 0x81, 0xFF];
    for (k, b) in sprite.iter().enumerate() {
        chip.write_memory(0x300 + k as u16, *b).unwrap();
    }
    chip.step(0).unwrap();
    chip.step(0).unwrap();
    // First draw: pixels lit, no collision.
    assert_eq!(chip.get_pixel(0, 0).unwrap(), true);
    assert_eq!(chip.get_pixel(0, 7).unwrap(), true);
    assert_eq!(chip.get_pixel(1, 0).unwrap(), true);
    assert_eq!(chip.get_pixel(1, 1).unwrap(), false);
    assert_eq!(chip.get_pixel(4, 3).unwrap(), true);
    assert_eq!(chip.read_register(0xF).unwrap(), 0);
    chip.step(0).unwrap();
    // Second draw: the same cells all toggled back off, collision reported.
    for row in 0..5 {
        for col in 0..8 {
            assert_eq!(chip.get_pixel(row, col).unwrap(), false);
        }
    }
    assert_eq!(chip.read_register(0xF).unwrap(), 1);
}

#[test]
fn draw_wraps_coordinates() {
    // One-row sprite 0x80 (single pixel) drawn at V0=70, V1=35:
    // origin wraps to (6, 3).
    let mut chip = boot(vec![0xA3, 0x00, 0xD0, 0x11]);
    chip.write_memory(0x300, 0x80).unwrap();
    chip.write_register(0, 70).unwrap();
    chip.write_register(1, 35).unwrap();
    chip.step(0).unwrap();
    chip.step(0).unwrap();
    assert_eq!(chip.get_pixel(3, 6).unwrap(), true);
}

#[test]
fn draw_wraps_each_pixel() {
    // An 8-wide row drawn at column 60 wraps its tail to columns 0..4.
    let mut chip = boot(vec![0xA3, 0x00, 0xD0, 0x11]);
    chip.write_memory(0x300, 0xFF).unwrap();
    chip.write_register(0, 60).unwrap();
    chip.write_register(1, 0).unwrap();
    chip.step(0).unwrap();
    chip.step(0).unwrap();
    for col in [60usize, 61, 62, 63, 0, 1, 2, 3] {
        assert_eq!(chip.get_pixel(0, col).unwrap(), true);
    }
    assert_eq!(chip.get_pixel(0, 4).unwrap(), false);
    assert_eq!(chip.get_pixel(0, 59).unwrap(), false);
}

#[test]
fn clear_unlights_every_cell() {
    // Draw a sprite, then CLS.
    let mut chip = boot(vec![0xA3, 0x00, 0xD0, 0x15, 0x00, 0xE0]);
    for k in 0..5u16 {
        chip.write_memory(0x300 + k, 0xFF).unwrap();
    }
    chip.step(0).unwrap();
    chip.step(0).unwrap();
    assert_eq!(chip.get_pixel(2, 2).unwrap(), true);
    chip.step(0).unwrap();
    for row in 0..32 {
        for col in 0..64 {
            assert_eq!(chip.get_pixel(row, col).unwrap(), false);
        }
    }
}

#[test]
fn call_then_ret_resumes_after_call() {
    // CALL 0x300 at 0x200; RET at 0x300.
    let mut chip = boot(vec![0x23, 0x00]);
    chip.write_memory(0x300, 0x00).unwrap();
    chip.write_memory(0x301, 0xEE).unwrap();
    chip.step(0).unwrap();
    assert_eq!(chip.program_counter(), 0x300);
    assert_eq!(chip.stack_depth(), 1);
    chip.step(0).unwrap();
    // Back at the instruction immediately after the CALL.
    assert_eq!(chip.program_counter(), 0x202);
    assert_eq!(chip.stack_depth(), 0);
}

#[test]
fn skip_true_condition_skips_next_instruction() {
    // SE V5, 0x07 with V5 = 7; the following LD V1, 1 must not run.
    let mut chip = boot(vec![0x35, 0x07, 0x61, 0x01, 0x62, 0x02]);
    chip.write_register(5, 7).unwrap();
    chip.step(0).unwrap();
    assert_eq!(chip.program_counter(), 0x204);
    chip.step(0).unwrap();
    assert_eq!(chip.read_register(1).unwrap(), 0);
    assert_eq!(chip.read_register(2).unwrap(), 2);
}

#[test]
fn skip_false_condition_runs_next_instruction() {
    let mut chip = boot(vec![0x35, 0x07, 0x61, 0x01]);
    chip.write_register(5, 8).unwrap();
    chip.step(0).unwrap();
    assert_eq!(chip.program_counter(), 0x202);
    chip.step(0).unwrap();
    assert_eq!(chip.read_register(1).unwrap(), 1);
}

#[test]
fn skip_register_compare_ops() {
    // SNE V5, 0x07 (true, skips); target: SE V1, V2 (equal, skips); SNE V1, V2 (equal, no skip).
    let mut chip = boot(vec![0x45, 0x07, 0x00, 0x00, 0x51, 0x20, 0x00, 0x00, 0x91, 0x20]);
    chip.write_register(5, 9).unwrap();
    chip.step(0).unwrap();
    assert_eq!(chip.program_counter(), 0x204);
    chip.step(0).unwrap();
    assert_eq!(chip.program_counter(), 0x208);
    chip.step(0).unwrap();
    assert_eq!(chip.program_counter(), 0x20A);
}

#[test]
fn unknown_opcode_reports_decode_error() {
    // 0xE000 matches no instruction at either decode level.
    let mut chip = boot(vec![0xE0, 0x00]);
    assert_eq!(chip.step(0), Err(Chip8Error::UnknownOpcode(0xE000)));
}

#[test]
fn unknown_opcode_in_f_family() {
    // 0xF0FF: family F keys on the low byte, and 0xFF is unassigned.
    let mut chip = boot(vec![0xF0, 0xFF]);
    assert_eq!(chip.step(0), Err(Chip8Error::UnknownOpcode(0xF0FF)));
}

#[test]
fn unknown_opcode_in_8_family() {
    // 0x8568: family 8 assigns nothing to low nibble 8.
    let mut chip = boot(vec![0x85, 0x68]);
    assert_eq!(chip.step(0), Err(Chip8Error::UnknownOpcode(0x8568)));
}

#[test]
fn key_wait_rewinds_until_key_pressed() {
    // LD V5, K with no key pressed: the program counter stays put.
    let mut chip = boot(vec![0xF5, 0x0A]);
    chip.step(0).unwrap();
    assert_eq!(chip.program_counter(), 0x200);
    chip.step(0).unwrap();
    assert_eq!(chip.program_counter(), 0x200);
    assert_eq!(chip.read_register(5).unwrap(), 0);
    // Press keys 7 and 3: the lowest-indexed pressed key is latched.
    chip.set_key(7, true).unwrap();
    chip.set_key(3, true).unwrap();
    chip.step(0).unwrap();
    assert_eq!(chip.read_register(5).unwrap(), 3);
    assert_eq!(chip.program_counter(), 0x202);
}

#[test]
fn skip_on_key_state() {
    // SKP V5 with key 4 pressed skips; SKNP V5 with key 4 pressed does not.
    let mut chip = boot(vec![0xE5, 0x9E, 0x00, 0x00, 0xE5, 0xA1]);
    chip.write_register(5, 4).unwrap();
    chip.set_key(4, true).unwrap();
    chip.step(0).unwrap();
    assert_eq!(chip.program_counter(), 0x204);
    chip.step(0).unwrap();
    assert_eq!(chip.program_counter(), 0x206);
}

#[test]
fn key_instruction_rejects_bad_key_index() {
    let mut chip = boot(vec![0xE5, 0x9E]);
    chip.write_register(5, 20).unwrap();
    assert_eq!(chip.step(0), Err(Chip8Error::KeyOutOfRange(20)));
}

#[test]
fn ret_with_empty_stack_underflows() {
    let mut chip = boot(vec![0x00, 0xEE]);
    assert_eq!(chip.step(0), Err(Chip8Error::StackUnderflow(0x202)));
}

#[test]
fn seventeenth_nested_call_overflows() {
    // CALL 0x200 at 0x200 calls itself forever; depth 16 is the limit.
    let mut chip = boot(vec![0x22, 0x00]);
    for depth in 1..=16u8 {
        chip.step(0).unwrap();
        assert_eq!(chip.stack_depth(), depth);
    }
    assert_eq!(chip.step(0), Err(Chip8Error::StackOverflow(0x200)));
}

#[test]
fn fetch_past_end_of_memory_is_fatal() {
    // JP 0xFFF leaves no room to fetch two bytes.
    let mut chip = boot(vec![0x1F, 0xFF]);
    chip.step(0).unwrap();
    assert_eq!(chip.program_counter(), 0xFFF);
    assert_eq!(chip.step(0), Err(Chip8Error::AddressOutOfRange(0xFFF)));
}

#[test]
fn draw_past_end_of_memory_is_fatal() {
    // LD I, 0xFFF; DRW V0, V1, 5 would read five bytes from 0xFFF.
    let mut chip = boot(vec![0xAF, 0xFF, 0xD0, 0x15]);
    chip.step(0).unwrap();
    assert_eq!(chip.step(0), Err(Chip8Error::AddressOutOfRange(0xFFF)));
}

#[test]
fn bcd_writes_three_digits() {
    // LD I, 0x300; LD B, V5 with V5 = 234.
    let mut chip = boot(vec![0xA3, 0x00, 0xF5, 0x33]);
    chip.write_register(5, 234).unwrap();
    chip.step(0).unwrap();
    chip.step(0).unwrap();
    assert_eq!(chip.read_memory(0x300).unwrap(), 2);
    assert_eq!(chip.read_memory(0x301).unwrap(), 3);
    assert_eq!(chip.read_memory(0x302).unwrap(), 4);
}

#[test]
fn bcd_past_end_of_memory_is_fatal() {
    // LD I, 0xFFE; LD B, V5 would write at 0xFFE, 0xFFF, 0x1000.
    let mut chip = boot(vec![0xAF, 0xFE, 0xF5, 0x33]);
    chip.step(0).unwrap();
    assert_eq!(chip.step(0), Err(Chip8Error::AddressOutOfRange(0xFFE)));
}

#[test]
fn block_store_and_load_are_inclusive() {
    // LD I, 0x400; LD [I], V3 stores V0..=V3; LD V3, [I] reloads them.
    let mut chip = boot(vec![0xA4, 0x00, 0xF3, 0x55, 0x61, 0x00, 0xF3, 0x65]);
    chip.write_register(0, 9).unwrap();
    chip.write_register(1, 8).unwrap();
    chip.write_register(2, 7).unwrap();
    chip.write_register(3, 6).unwrap();
    chip.write_register(4, 5).unwrap();
    chip.step(0).unwrap();
    chip.step(0).unwrap();
    assert_eq!(chip.read_memory(0x400).unwrap(), 9);
    assert_eq!(chip.read_memory(0x401).unwrap(), 8);
    assert_eq!(chip.read_memory(0x402).unwrap(), 7);
    assert_eq!(chip.read_memory(0x403).unwrap(), 6);
    // V4 is past x = 3 and was not stored.
    assert_eq!(chip.read_memory(0x404).unwrap(), 0);
    // The index register is not auto-incremented.
    assert_eq!(chip.index_register(), 0x400);
    // Clobber V1, then reload the block.
    chip.step(0).unwrap();
    assert_eq!(chip.read_register(1).unwrap(), 0);
    chip.step(0).unwrap();
    assert_eq!(chip.read_register(1).unwrap(), 8);
    assert_eq!(chip.read_register(4).unwrap(), 5);
    assert_eq!(chip.index_register(), 0x400);
}

#[test]
fn block_transfer_past_end_of_memory_is_fatal() {
    // LD I, 0xFFD; LD [I], V3 would write through 0x1000.
    let mut chip = boot(vec![0xAF, 0xFD, 0xF3, 0x55]);
    chip.step(0).unwrap();
    assert_eq!(chip.step(0), Err(Chip8Error::AddressOutOfRange(0xFFD)));
}

#[test]
fn timers_set_read_and_tick() {
    // LD DT, V5 (V5 = 3); LD ST, V6 (V6 = 5); LD V7, DT.
    let mut chip = boot(vec![0xF5, 0x15, 0xF6, 0x18, 0xF7, 0x07]);
    chip.write_register(5, 3).unwrap();
    chip.write_register(6, 5).unwrap();
    chip.step(0).unwrap();
    // The set happens before the end-of-cycle tick, so one count is gone.
    assert_eq!(chip.delay_timer(), 2);
    chip.step(0).unwrap();
    // Both timers count down each cycle while nonzero.
    assert_eq!(chip.delay_timer(), 1);
    assert_eq!(chip.sound_timer(), 4);
    chip.step(0).unwrap();
    assert_eq!(chip.read_register(7).unwrap(), 1);
    assert_eq!(chip.delay_timer(), 0);
    assert_eq!(chip.sound_timer(), 3);
    // A timer at zero stays at zero.
    chip.write_memory(0x206, 0x60).unwrap();
    chip.write_memory(0x207, 0x00).unwrap();
    chip.step(0).unwrap();
    assert_eq!(chip.delay_timer(), 0);
}

#[test]
fn random_masks_with_kk() {
    // RND V5, 0x0F with the sample pinned by step.
    let mut chip = boot(vec![0xC5, 0x0F]);
    chip.step(0xAB).unwrap();
    assert_eq!(chip.read_register(5).unwrap(), 0x0B);
}

#[test]
fn random_with_zero_mask_is_zero() {
    // RND V5, 0x00 is zero whatever the source returned.
    let mut chip = boot(vec![0xC5, 0x00]);
    chip.cycle().unwrap();
    assert_eq!(chip.read_register(5).unwrap(), 0);
}

#[test]
fn cycle_runs_ordinary_instructions() {
    let mut chip = boot(vec![0x65, 0x2A]);
    chip.cycle().unwrap();
    assert_eq!(chip.read_register(5).unwrap(), 0x2A);
    assert_eq!(chip.program_counter(), 0x202);
}

#[test]
fn jumps_set_program_counter() {
    // JP 0x300; at 0x300: JP V0, 0x210 with V0 = 4.
    let mut chip = boot(vec![0x13, 0x00]);
    chip.write_memory(0x300, 0xB2).unwrap();
    chip.write_memory(0x301, 0x10).unwrap();
    chip.write_register(0, 4).unwrap();
    chip.step(0).unwrap();
    assert_eq!(chip.program_counter(), 0x300);
    chip.step(0).unwrap();
    assert_eq!(chip.program_counter(), 0x214);
}

#[test]
fn index_register_ops() {
    // LD I, 0x123; ADD I, V5 (V5 = 0x10); LD F, V6 (V6 = 0xA).
    let mut chip = boot(vec![0xA1, 0x23, 0xF5, 0x1E, 0xF6, 0x29]);
    chip.write_register(5, 0x10).unwrap();
    chip.write_register(6, 0xA).unwrap();
    chip.step(0).unwrap();
    assert_eq!(chip.index_register(), 0x123);
    chip.step(0).unwrap();
    assert_eq!(chip.index_register(), 0x133);
    chip.step(0).unwrap();
    // Glyph A sits at 0x50 + 5 * 10.
    assert_eq!(chip.index_register(), 0x82);
}

#[test]
fn font_glyph_drawn_from_table() {
    // LD F, V6 (V6 = 0); DRW V0, V1, 5: the glyph for 0 is a box.
    let mut chip = boot(vec![0xF6, 0x29, 0xD0, 0x15]);
    chip.step(0).unwrap();
    chip.step(0).unwrap();
    // Top row of glyph 0 is 0xF0: pixels 0..4 lit, 4..8 unlit.
    for col in 0..4 {
        assert_eq!(chip.get_pixel(0, col).unwrap(), true);
    }
    for col in 4..8 {
        assert_eq!(chip.get_pixel(0, col).unwrap(), false);
    }
    // Middle row 0x90: pixels 0 and 3 lit.
    assert_eq!(chip.get_pixel(1, 0).unwrap(), true);
    assert_eq!(chip.get_pixel(1, 1).unwrap(), false);
    assert_eq!(chip.get_pixel(1, 3).unwrap(), true);
}

#[test]
fn accessors_reject_out_of_range_indices() {
    let mut chip = CHIP8::new();
    assert_eq!(chip.read_register(16), Err(Chip8Error::RegisterOutOfRange(16)));
    assert_eq!(
        chip.write_register(16, 1),
        Err(Chip8Error::RegisterOutOfRange(16))
    );
    assert_eq!(chip.read_memory(4096), Err(Chip8Error::AddressOutOfRange(4096)));
    assert_eq!(
        chip.write_memory(4096, 1),
        Err(Chip8Error::AddressOutOfRange(4096))
    );
    assert_eq!(chip.get_pixel(32, 0), Err(Chip8Error::PixelOutOfRange(32, 0)));
    assert_eq!(chip.get_pixel(0, 64), Err(Chip8Error::PixelOutOfRange(0, 64)));
    assert_eq!(chip.set_key(16, true), Err(Chip8Error::KeyOutOfRange(16)));
    assert_eq!(chip.get_key(16), Err(Chip8Error::KeyOutOfRange(16)));
}

#[test]
fn accessors_read_back_writes() {
    let mut chip = CHIP8::new();
    chip.write_register(3, 77).unwrap();
    assert_eq!(chip.read_register(3).unwrap(), 77);
    chip.write_memory(0x123, 0x5A).unwrap();
    assert_eq!(chip.read_memory(0x123).unwrap(), 0x5A);
    chip.set_key(9, true).unwrap();
    assert_eq!(chip.get_key(9).unwrap(), true);
    chip.set_key(9, false).unwrap();
    assert_eq!(chip.get_key(9).unwrap(), false);
}
