use chiprs::Chip8;
use chiprs::DisplayState;
use chiprs::VmError;


#[test]
fn load_keeps_program_bytes() {
    let program: Vec<u8> = vec![0x12, 0x34, 0x56, 0x78, 0x9A];
    let vm = Chip8::load_program(&program).unwrap();
    for (k, byte) in program.iter().enumerate() {
        assert_eq!(vm.mem_byte(0x200 + k), *byte);
    }
    assert_eq!(vm.pc(), 0x200);
    assert_eq!(vm.index_reg(), 0);
    assert_eq!(vm.delay_timer(), 0);
    assert_eq!(vm.sound_timer(), 0);
    for i in 0..16 {
        assert_eq!(vm.register(i), 0);
    }
}

#[test]
fn load_largest_program_succeeds() {
    let program = vec![0xABu8; 3584];
    let vm = Chip8::load_program(&program).unwrap();
    assert_eq!(vm.mem_byte(0x200), 0xAB);
    assert_eq!(vm.mem_byte(0x200 + 3583), 0xAB);
}

#[test]
fn load_too_large_program_fails() {
    let program = vec![0u8; 3585];
    let result = Chip8::load_program(&program);
    assert!(matches!(result, Err(VmError::ProgramTooLarge)));
}

#[test]
fn font_table_loaded_and_not_overwritten() {
    let program = vec![0xFFu8; 3584];
    let vm = Chip8::load_program(&program).unwrap();
    // glyph 0 starts the table, glyph F ends it
    let glyph_zero = [0xF0, 0x90, 0x90, 0x90, 0xF0];
    let glyph_f = [0xF0, 0x80, 0xF0, 0x80, 0x80];
    for r in 0..5 {
        assert_eq!(vm.mem_byte(0x050 + r), glyph_zero[r]);
        assert_eq!(vm.mem_byte(0x09B + r), glyph_f[r]);
    }
    // the largest possible program leaves the font untouched
    assert_eq!(vm.mem_byte(0x04F), 0x00);
    assert_eq!(vm.mem_byte(0x0A0), 0x00);
}

#[test]
fn add_imm_wraps_without_flag() {
    // V1 = 0xFF; V1 += 0x02 wraps to 0x01, VF untouched
    let vm_prog = vec![0x61, 0xFF, 0x71, 0x02];
    let mut vm = Chip8::load_program(&vm_prog).unwrap();
    vm.step([false; 16]).unwrap();
    vm.step([false; 16]).unwrap();
    assert_eq!(vm.register(1), 0x01);
    assert_eq!(vm.register(0xF), 0x00);
}

#[test]
fn add_reg_sets_carry() {
    // V1 = 0xFF, V2 = 0x01; V1 += V2 => V1 = 0x00, VF = 1
    let vm_prog = vec![0x61, 0xFF, 0x62, 0x01, 0x81, 0x24];
    let mut vm = Chip8::load_program(&vm_prog).unwrap();
    for _ in 0..3 {
        vm.step([false; 16]).unwrap();
    }
    assert_eq!(vm.register(1), 0x00);
    assert_eq!(vm.register(0xF), 1);
}

#[test]
fn add_reg_clears_carry() {
    // V1 = 0x01, V2 = 0x01; V1 += V2 => V1 = 0x02, VF = 0
    let vm_prog = vec![0x6F, 0x01, 0x61, 0x01, 0x62, 0x01, 0x81, 0x24];
    let mut vm = Chip8::load_program(&vm_prog).unwrap();
    for _ in 0..4 {
        vm.step([false; 16]).unwrap();
    }
    assert_eq!(vm.register(1), 0x02);
    assert_eq!(vm.register(0xF), 0);
}

#[test]
fn sub_reg_wraps() {
    // V1 = 0x00, V2 = 0x01; V1 -= V2 wraps to 0xFF
    let vm_prog = vec![0x61, 0x00, 0x62, 0x01, 0x81, 0x25];
    let mut vm = Chip8::load_program(&vm_prog).unwrap();
    for _ in 0..3 {
        vm.step([false; 16]).unwrap();
    }
    assert_eq!(vm.register(1), 0xFF);
}

#[test]
fn sub_from_swaps_operands() {
    // V1 = 0x03, V2 = 0x05; V1 = V2 - V1 = 0x02
    let vm_prog = vec![0x61, 0x03, 0x62, 0x05, 0x81, 0x27];
    let mut vm = Chip8::load_program(&vm_prog).unwrap();
    for _ in 0..3 {
        vm.step([false; 16]).unwrap();
    }
    assert_eq!(vm.register(1), 0x02);
}

#[test]
fn bitwise_ops() {
    // V1 = 0b1100, V2 = 0b1010: OR, then AND with V3, then XOR with V4
    let vm_prog = vec![
        0x61, 0x0C, 0x62, 0x0A, 0x81, 0x21, // V1 = 0b1110
        0x63, 0x06, 0x81, 0x32, // V1 = 0b0110
        0x64, 0x05, 0x81, 0x43, // V1 = 0b0011
    ];
    let mut vm = Chip8::load_program(&vm_prog).unwrap();
    for _ in 0..3 {
        vm.step([false; 16]).unwrap();
    }
    assert_eq!(vm.register(1), 0b1110);
    for _ in 0..2 {
        vm.step([false; 16]).unwrap();
    }
    assert_eq!(vm.register(1), 0b0110);
    for _ in 0..2 {
        vm.step([false; 16]).unwrap();
    }
    assert_eq!(vm.register(1), 0b0011);
}

#[test]
fn shift_right_keeps_low_bit() {
    // V1 = 0x03 => VF = 1 (low bit), V1 = 0x01
    let vm_prog = vec![0x61, 0x03, 0x81, 0x06];
    let mut vm = Chip8::load_program(&vm_prog).unwrap();
    vm.step([false; 16]).unwrap();
    vm.step([false; 16]).unwrap();
    assert_eq!(vm.register(0xF), 1);
    assert_eq!(vm.register(1), 0x01);
}

#[test]
fn shift_left_keeps_high_bit() {
    // V1 = 0x81 => VF = 1 (high bit), V1 = 0x02 (0x102 truncated to 8 bits)
    let vm_prog = vec![0x61, 0x81, 0x81, 0x0E];
    let mut vm = Chip8::load_program(&vm_prog).unwrap();
    vm.step([false; 16]).unwrap();
    vm.step([false; 16]).unwrap();
    assert_eq!(vm.register(0xF), 1);
    assert_eq!(vm.register(1), 0x02);
}

#[test]
fn skip_instructions() {
    // 3XNN skips when V1 == NN: the skipped 0x0000 would be fatal
    let vm_prog = vec![0x61, 0x07, 0x31, 0x07, 0x00, 0x00, 0x62, 0x01];
    let mut vm = Chip8::load_program(&vm_prog).unwrap();
    vm.step([false; 16]).unwrap();
    vm.step([false; 16]).unwrap();
    assert_eq!(vm.pc(), 0x206);
    vm.step([false; 16]).unwrap();
    assert_eq!(vm.register(2), 1);
}

#[test]
fn skip_eq_reg_needs_zero_nibble() {
    // 5XY3 matches no instruction pattern
    let vm_prog = vec![0x51, 0x23];
    let mut vm = Chip8::load_program(&vm_prog).unwrap();
    assert_eq!(vm.step([false; 16]), Err(VmError::InvalidInstruction(0x5123)));
    assert_eq!(vm.pc(), 0x200);
}

#[test]
fn jump_sets_pc() {
    let vm_prog = vec![0x15, 0x43];
    let mut vm = Chip8::load_program(&vm_prog).unwrap();
    vm.step([false; 16]).unwrap();
    assert_eq!(vm.pc(), 0x543);
}

#[test]
fn jump_with_offset_adds_v0() {
    let vm_prog = vec![0x60, 0x04, 0xB2, 0x00];
    let mut vm = Chip8::load_program(&vm_prog).unwrap();
    vm.step([false; 16]).unwrap();
    vm.step([false; 16]).unwrap();
    assert_eq!(vm.pc(), 0x204);
}

#[test]
fn clear_screen_turns_every_pixel_off() {
    // draw the 0 glyph, then clear: every one of the 2048 pixels is off
    let vm_prog = vec![0x61, 0x00, 0xF1, 0x29, 0xD1, 0x15, 0x00, 0xE0];
    let mut vm = Chip8::load_program(&vm_prog).unwrap();
    for _ in 0..3 {
        vm.step([false; 16]).unwrap();
    }
    assert!(vm.pixel(0, 0));
    let state = vm.step([false; 16]).unwrap();
    assert_eq!(state, DisplayState::Updated);
    for y in 0..32 {
        for x in 0..64 {
            assert!(!vm.pixel(y, x));
        }
    }
}

#[test]
fn draw_clips_at_right_edge() {
    // an 8-wide sprite at column 60 draws only its 4 leftmost columns
    let vm_prog = vec![0x61, 0x3C, 0x62, 0x00, 0xA2, 0x08, 0xD1, 0x21, 0xFF];
    let mut vm = Chip8::load_program(&vm_prog).unwrap();
    for _ in 0..3 {
        vm.step([false; 16]).unwrap();
    }
    let state = vm.step([false; 16]).unwrap();
    assert_eq!(state, DisplayState::Updated);
    for x in 60..64 {
        assert!(vm.pixel(0, x));
    }
    // no wraparound artifact on the left of the same row, and none below
    for x in 0..60 {
        assert!(!vm.pixel(0, x));
    }
    for x in 0..64 {
        assert!(!vm.pixel(1, x));
    }
    assert_eq!(vm.register(0xF), 0);
}

#[test]
fn draw_twice_toggles_pixels_back_off() {
    // XOR self-cancellation: the second identical draw erases the sprite and
    // reports the collision in VF
    let vm_prog = vec![
        0x61, 0x00, 0x62, 0x00, 0xA2, 0x0A, 0xD1, 0x21, 0xD1, 0x21, 0xFF,
    ];
    let mut vm = Chip8::load_program(&vm_prog).unwrap();
    for _ in 0..3 {
        vm.step([false; 16]).unwrap();
    }
    vm.step([false; 16]).unwrap();
    for x in 0..8 {
        assert!(vm.pixel(0, x));
    }
    assert_eq!(vm.register(0xF), 0);
    let state = vm.step([false; 16]).unwrap();
    assert_eq!(state, DisplayState::Updated);
    for y in 0..32 {
        for x in 0..64 {
            assert!(!vm.pixel(y, x));
        }
    }
    assert_eq!(vm.register(0xF), 1);
}

#[test]
fn ret_on_empty_stack_is_fatal() {
    let vm_prog = vec![0x00, 0xEE];
    let mut vm = Chip8::load_program(&vm_prog).unwrap();
    assert_eq!(vm.step([false; 16]), Err(VmError::EmptyStackReturn));
    // a fatal condition leaves the machine untouched
    assert_eq!(vm.pc(), 0x200);
}

#[test]
fn call_then_ret_resumes_after_call() {
    // 2NNN at 0x200 calls 0x204; the 00EE there returns to 0x202
    let vm_prog = vec![0x22, 0x04, 0x12, 0x00, 0x00, 0xEE];
    let mut vm = Chip8::load_program(&vm_prog).unwrap();
    vm.step([false; 16]).unwrap();
    assert_eq!(vm.pc(), 0x204);
    vm.step([false; 16]).unwrap();
    assert_eq!(vm.pc(), 0x202);
}

#[test]
fn wait_key_repeats_until_a_key_is_down() {
    let vm_prog = vec![0xF1, 0x0A];
    let mut vm = Chip8::load_program(&vm_prog).unwrap();
    // with no key down the program counter never moves
    for _ in 0..3 {
        assert_eq!(vm.step([false; 16]), Ok(DisplayState::NotUpdated));
        assert_eq!(vm.pc(), 0x200);
    }
    // once keys are down, VX gets the lowest-indexed one and the counter
    // advances normally
    let mut keys = [false; 16];
    keys[0x9] = true;
    keys[0x5] = true;
    vm.step(keys).unwrap();
    assert_eq!(vm.register(1), 0x5);
    assert_eq!(vm.pc(), 0x202);
}

#[test]
fn skip_if_key_pressed() {
    // EX9E skips only when the key in VX is down
    let vm_prog = vec![0x61, 0x07, 0xE1, 0x9E, 0xE1, 0x9E];
    let mut vm = Chip8::load_program(&vm_prog).unwrap();
    vm.step([false; 16]).unwrap();
    vm.step([false; 16]).unwrap();
    assert_eq!(vm.pc(), 0x204);
    let mut keys = [false; 16];
    keys[0x7] = true;
    vm.step(keys).unwrap();
    assert_eq!(vm.pc(), 0x208);
}

#[test]
fn skip_if_key_not_pressed_handles_out_of_range() {
    // a register value of 16 or more names no key, so EXA1 always skips
    let vm_prog = vec![0x61, 0x20, 0xE1, 0xA1];
    let mut vm = Chip8::load_program(&vm_prog).unwrap();
    let keys = [true; 16];
    vm.step(keys).unwrap();
    vm.step(keys).unwrap();
    assert_eq!(vm.pc(), 0x206);
}

#[test]
fn bcd_writes_three_digits() {
    // V1 = 234 => hundreds 2, tens 3, ones 4 at the index register
    let vm_prog = vec![0x61, 0xEA, 0xA3, 0x00, 0xF1, 0x33];
    let mut vm = Chip8::load_program(&vm_prog).unwrap();
    for _ in 0..3 {
        vm.step([false; 16]).unwrap();
    }
    assert_eq!(vm.mem_byte(0x300), 2);
    assert_eq!(vm.mem_byte(0x301), 3);
    assert_eq!(vm.mem_byte(0x302), 4);
}

#[test]
fn store_and_load_registers() {
    let vm_prog = vec![
        0x60, 0x0B, 0x61, 0x16, 0xA3, 0x00, 0xF1, 0x55, // store V0..=V1 at 0x300
        0x60, 0x00, 0x61, 0x00, 0xF1, 0x65, // clear, then load them back
    ];
    let mut vm = Chip8::load_program(&vm_prog).unwrap();
    for _ in 0..4 {
        vm.step([false; 16]).unwrap();
    }
    assert_eq!(vm.mem_byte(0x300), 0x0B);
    assert_eq!(vm.mem_byte(0x301), 0x16);
    assert_eq!(vm.index_reg(), 0x300);
    for _ in 0..3 {
        vm.step([false; 16]).unwrap();
    }
    assert_eq!(vm.register(0), 0x0B);
    assert_eq!(vm.register(1), 0x16);
}

#[test]
fn font_index_points_into_font_table() {
    // the glyph for 0xA sits at 0x050 + 5 * 10
    let vm_prog = vec![0x61, 0x0A, 0xF1, 0x29];
    let mut vm = Chip8::load_program(&vm_prog).unwrap();
    vm.step([false; 16]).unwrap();
    vm.step([false; 16]).unwrap();
    assert_eq!(vm.index_reg(), 0x050 + 5 * 0x0A);
}

#[test]
fn font_index_rejects_values_above_fifteen() {
    let vm_prog = vec![0x61, 0x10, 0xF1, 0x29];
    let mut vm = Chip8::load_program(&vm_prog).unwrap();
    vm.step([false; 16]).unwrap();
    assert_eq!(vm.step([false; 16]), Err(VmError::FontIndexOutOfRange));
    assert_eq!(vm.pc(), 0x202);
}

#[test]
fn add_index_clears_flag_without_overflow() {
    // FX1E: V1 added to the index register; VF is written 0 when the 16-bit
    // sum does not overflow, even if VF was 1 before
    let vm_prog = vec![0x6F, 0x01, 0x61, 0x05, 0xA0, 0x0A, 0xF1, 0x1E];
    let mut vm = Chip8::load_program(&vm_prog).unwrap();
    for _ in 0..4 {
        vm.step([false; 16]).unwrap();
    }
    assert_eq!(vm.index_reg(), 0x0F);
    assert_eq!(vm.register(0xF), 0);
}

#[test]
fn timers_count_down_to_zero_and_stay() {
    let vm_prog = vec![0x61, 0x01, 0xF1, 0x18, 0x62, 0x02, 0xF2, 0x15];
    let mut vm = Chip8::load_program(&vm_prog).unwrap();
    assert!(!vm.is_sound_on());
    for _ in 0..4 {
        vm.step([false; 16]).unwrap();
    }
    assert_eq!(vm.sound_timer(), 1);
    assert_eq!(vm.delay_timer(), 2);
    assert!(vm.is_sound_on());
    vm.tick_timers();
    // sound-active turns false on the read after the tick, not retroactively
    assert_eq!(vm.sound_timer(), 0);
    assert_eq!(vm.delay_timer(), 1);
    assert!(!vm.is_sound_on());
    vm.tick_timers();
    assert_eq!(vm.sound_timer(), 0);
    assert_eq!(vm.delay_timer(), 0);
    vm.tick_timers();
    assert_eq!(vm.delay_timer(), 0);
}

#[test]
fn delay_timer_read_back() {
    let vm_prog = vec![0x61, 0x07, 0xF1, 0x15, 0xF2, 0x07];
    let mut vm = Chip8::load_program(&vm_prog).unwrap();
    for _ in 0..3 {
        vm.step([false; 16]).unwrap();
    }
    assert_eq!(vm.register(2), 0x07);
}

#[test]
fn random_respects_mask() {
    // CXNN masks the random byte: a zero mask forces zero, a 0x0F mask keeps
    // only the low nibble
    let vm_prog = vec![0x61, 0xFF, 0xC1, 0x00, 0xC2, 0x0F];
    let mut vm = Chip8::load_program(&vm_prog).unwrap();
    vm.step([false; 16]).unwrap();
    vm.step([false; 16]).unwrap();
    assert_eq!(vm.register(1), 0);
    vm.step([false; 16]).unwrap();
    assert!(vm.register(2) < 16);
}

#[test]
fn invalid_instruction_is_fatal() {
    let vm_prog = vec![0x00, 0x00];
    let mut vm = Chip8::load_program(&vm_prog).unwrap();
    assert_eq!(vm.step([false; 16]), Err(VmError::InvalidInstruction(0x0000)));
    assert_eq!(vm.pc(), 0x200);
}

#[test]
fn fetch_past_end_of_memory_is_fatal() {
    let vm_prog = vec![0x1F, 0xFF];
    let mut vm = Chip8::load_program(&vm_prog).unwrap();
    vm.step([false; 16]).unwrap();
    assert_eq!(vm.pc(), 0xFFF);
    assert_eq!(vm.step([false; 16]), Err(VmError::MemoryOutOfBounds));
    assert_eq!(vm.pc(), 0xFFF);
}

#[test]
fn flag_write_wins_when_vf_is_operand() {
    // a flag-writing instruction with X = F writes the flag last
    let vm_prog = vec![0x6F, 0x03, 0x8F, 0x06];
    let mut vm = Chip8::load_program(&vm_prog).unwrap();
    vm.step([false; 16]).unwrap();
    vm.step([false; 16]).unwrap();
    // VF holds the old low bit, not the shifted value
    assert_eq!(vm.register(0xF), 1);
}
