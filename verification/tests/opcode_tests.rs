use chip8::Chip8;

fn machine() -> Chip8 {
    Chip8::new()
}

#[test]
fn clear_display_turns_every_pixel_off() {
    let mut c = machine();
    c.display[0] = true;
    c.display[2047] = true;
    c.op_clear_display();
    assert!(c.display.iter().all(|&p| !p));
}

#[test]
fn call_pushes_return_address_and_return_pops_it() {
    let mut c = machine();
    c.pc = 0x202;
    let instr = c.decode(0x2ABC);
    c.op_call(instr);
    assert_eq!(c.pc, 0xABC);
    assert_eq!(c.sp, 1);
    assert_eq!(c.stack[0], 0x202);
    c.op_return();
    assert_eq!(c.pc, 0x202);
    assert_eq!(c.sp, 0);
}

#[test]
fn nested_calls_return_in_reverse_order() {
    let mut c = machine();
    c.pc = 0x300;
    let a = c.decode(0x2400);
    c.op_call(a);
    let b = c.decode(0x2500);
    c.op_call(b);
    assert_eq!(c.sp, 2);
    c.op_return();
    assert_eq!(c.pc, 0x400);
    c.op_return();
    assert_eq!(c.pc, 0x300);
}

#[test]
fn jump_sets_pc() {
    let mut c = machine();
    let instr = c.decode(0x1FED);
    c.op_jump(instr);
    assert_eq!(c.pc, 0xFED);
}

#[test]
fn skip_eq_nn_skips_only_when_equal() {
    let mut c = machine();
    c.v[3] = 0x42;
    let instr = c.decode(0x3342);
    c.op_skip_eq_nn(instr);
    assert_eq!(c.pc, 0x202);
    let instr = c.decode(0x3343);
    c.op_skip_eq_nn(instr);
    assert_eq!(c.pc, 0x202);
}

#[test]
fn skip_ne_nn_skips_only_when_different() {
    let mut c = machine();
    c.v[3] = 0x42;
    let instr = c.decode(0x4342);
    c.op_skip_ne_nn(instr);
    assert_eq!(c.pc, 0x200);
    let instr = c.decode(0x4343);
    c.op_skip_ne_nn(instr);
    assert_eq!(c.pc, 0x202);
}

#[test]
fn skip_eq_reg_and_ne_reg() {
    let mut c = machine();
    c.v[1] = 9;
    c.v[2] = 9;
    let instr = c.decode(0x5120);
    c.op_skip_eq_reg(instr);
    assert_eq!(c.pc, 0x202);
    let instr = c.decode(0x9120);
    c.op_skip_ne_reg(instr);
    assert_eq!(c.pc, 0x202);
    c.v[2] = 8;
    let instr = c.decode(0x9120);
    c.op_skip_ne_reg(instr);
    assert_eq!(c.pc, 0x204);
    let instr = c.decode(0x5120);
    c.op_skip_eq_reg(instr);
    assert_eq!(c.pc, 0x204);
}

#[test]
fn set_and_add_immediate() {
    let mut c = machine();
    let instr = c.decode(0x6A15);
    c.op_set(instr);
    assert_eq!(c.v[0xA], 0x15);
    let instr = c.decode(0x7AF0);
    c.op_add(instr);
    assert_eq!(c.v[0xA], 0x05);
    assert_eq!(c.v[0xF], 0);
}

#[test]
fn add_immediate_wraps_without_flag() {
    let mut c = machine();
    c.v[0] = 0xFF;
    c.v[0xF] = 7;
    let instr = c.decode(0x7002);
    c.op_add(instr);
    assert_eq!(c.v[0], 0x01);
    assert_eq!(c.v[0xF], 7);
}

#[test]
fn register_copy_and_bitwise_ops() {
    let mut c = machine();
    c.v[1] = 0b1100;
    c.v[2] = 0b1010;
    let instr = c.decode(0x8121);
    c.op_or(instr);
    assert_eq!(c.v[1], 0b1110);
    c.v[1] = 0b1100;
    let instr = c.decode(0x8122);
    c.op_and(instr);
    assert_eq!(c.v[1], 0b1000);
    c.v[1] = 0b1100;
    let instr = c.decode(0x8123);
    c.op_xor(instr);
    assert_eq!(c.v[1], 0b0110);
    let instr = c.decode(0x8120);
    c.op_set_reg(instr);
    assert_eq!(c.v[1], 0b1010);
}

#[test]
fn add_reg_sets_carry_flag() {
    let mut c = machine();
    c.v[1] = 200;
    c.v[2] = 100;
    let instr = c.decode(0x8124);
    c.op_add_reg(instr);
    assert_eq!(c.v[1], 44);
    assert_eq!(c.v[0xF], 1);
    c.v[1] = 100;
    let instr = c.decode(0x8124);
    c.op_add_reg(instr);
    assert_eq!(c.v[1], 200);
    assert_eq!(c.v[0xF], 0);
}

#[test]
fn add_reg_into_vf_is_overwritten_by_flag() {
    let mut c = machine();
    c.v[0xF] = 0x10;
    c.v[1] = 0x20;
    let instr = c.decode(0x8F14);
    c.op_add_reg(instr);
    assert_eq!(c.v[0xF], 0);
}

#[test]
fn sub_reg_sets_no_borrow_flag() {
    let mut c = machine();
    c.v[1] = 10;
    c.v[2] = 3;
    let instr = c.decode(0x8125);
    c.op_sub_reg(instr);
    assert_eq!(c.v[1], 7);
    assert_eq!(c.v[0xF], 1);
    let instr = c.decode(0x8125);
    c.v[2] = 8;
    c.op_sub_reg(instr);
    assert_eq!(c.v[1], 255);
    assert_eq!(c.v[0xF], 0);
    c.v[1] = 5;
    c.v[2] = 5;
    let instr = c.decode(0x8125);
    c.op_sub_reg(instr);
    assert_eq!(c.v[1], 0);
    assert_eq!(c.v[0xF], 1);
}

#[test]
fn sub_reverse_sets_no_borrow_flag() {
    let mut c = machine();
    c.v[1] = 3;
    c.v[2] = 10;
    let instr = c.decode(0x8127);
    c.op_sub_reverse(instr);
    assert_eq!(c.v[1], 7);
    assert_eq!(c.v[0xF], 1);
    c.v[1] = 11;
    let instr = c.decode(0x8127);
    c.op_sub_reverse(instr);
    assert_eq!(c.v[1], 255);
    assert_eq!(c.v[0xF], 0);
}

#[test]
fn shift_right_keeps_low_bit_and_ignores_y() {
    let mut c = machine();
    c.v[1] = 0b0000_0101;
    c.v[2] = 0xFF;
    let instr = c.decode(0x8126);
    c.op_shift_right(instr);
    assert_eq!(c.v[1], 0b0000_0010);
    assert_eq!(c.v[0xF], 1);
    assert_eq!(c.v[2], 0xFF);
}

#[test]
fn shift_left_keeps_high_bit_and_ignores_y() {
    let mut c = machine();
    c.v[1] = 0b1000_0011;
    c.v[2] = 0x01;
    let instr = c.decode(0x812E);
    c.op_shift_left(instr);
    assert_eq!(c.v[1], 0b0000_0110);
    assert_eq!(c.v[0xF], 1);
    c.v[1] = 0b0100_0000;
    let instr = c.decode(0x812E);
    c.op_shift_left(instr);
    assert_eq!(c.v[1], 0b1000_0000);
    assert_eq!(c.v[0xF], 0);
}

#[test]
fn set_index_and_add_index() {
    let mut c = machine();
    let instr = c.decode(0xA2F0);
    c.op_set_index(instr);
    assert_eq!(c.i, 0x2F0);
    c.v[5] = 0x10;
    let instr = c.decode(0xF51E);
    c.op_add_index(instr);
    assert_eq!(c.i, 0x300);
}

#[test]
fn jump_add_v0_jumps_to_nnn_plus_v0() {
    let mut c = machine();
    c.v[0] = 4;
    let instr = c.decode(0xB100);
    c.op_jump_add_v0(instr);
    assert_eq!(c.pc, 0x104);
    c.v[0] = 0xFF;
    let instr = c.decode(0xBFFF);
    c.op_jump_add_v0(instr);
    assert_eq!(c.pc, 0x10FE);
}

#[test]
fn rand_and_masks_given_byte() {
    let mut c = machine();
    let instr = c.decode(0xC40F);
    c.op_rand_and(instr, 0xAB);
    assert_eq!(c.v[4], 0x0B);
}

#[test]
fn add_rand_stays_within_mask() {
    for _ in 0..100 {
        let mut c = machine();
        let instr = c.decode(0xC4A5);
        c.op_add_rand(instr).unwrap();
        assert_eq!(c.v[4] & !0xA5, 0);
    }
    let mut c = machine();
    c.v[4] = 0xFF;
    let instr = c.decode(0xC400);
    c.op_add_rand(instr).unwrap();
    assert_eq!(c.v[4], 0);
}

#[test]
fn display_sprite_draws_font_digit() {
    let mut c = machine();
    c.i = 0x50; // digit 0: F0 90 90 90 F0
    c.v[1] = 2;
    c.v[2] = 3;
    c.v[0xF] = 9;
    let instr = c.decode(0xD125);
    c.op_display_sprite(instr);
    assert_eq!(c.v[0xF], 0);
    let lit: Vec<usize> = (0..2048).filter(|&p| c.display[p]).collect();
    let mut expected = Vec::new();
    for (row, byte) in [0xF0u8, 0x90, 0x90, 0x90, 0xF0].iter().enumerate() {
        for col in 0..8 {
            if byte >> (7 - col) & 1 == 1 {
                expected.push((3 + row) * 64 + 2 + col);
            }
        }
    }
    assert_eq!(lit, expected);
    assert!(c.display[3 * 64 + 2]);
    assert!(c.display[4 * 64 + 5]);
    assert!(!c.display[4 * 64 + 3]);
}

#[test]
fn display_sprite_keeps_lit_pixels_and_wraps_start() {
    let mut c = machine();
    c.display[0] = true;
    c.memory[0x300] = 0b1000_0001;
    c.i = 0x300;
    c.v[3] = 64 + 1; // x wraps to 1
    c.v[4] = 32 + 2; // y wraps to 2
    let instr = c.decode(0xD341);
    c.op_display_sprite(instr);
    assert!(c.display[0]);
    assert!(c.display[2 * 64 + 1]);
    assert!(c.display[2 * 64 + 8]);
    assert_eq!(c.display.iter().filter(|&&p| p).count(), 3);
}

#[test]
fn display_sprite_past_right_edge_runs_into_next_row() {
    let mut c = machine();
    c.memory[0x300] = 0b0000_0001;
    c.i = 0x300;
    c.v[0] = 63;
    c.v[1] = 0;
    let instr = c.decode(0xD011);
    c.op_display_sprite(instr);
    assert!(c.display[63 + 7]);
}

#[test]
fn skip_on_key_state() {
    let mut c = machine();
    c.v[2] = 0xA;
    c.keypad[0xA] = true;
    let instr = c.decode(0xE29E);
    c.op_skip_keypress(instr);
    assert_eq!(c.pc, 0x202);
    let instr = c.decode(0xE2A1);
    c.op_skip_nokeypress(instr);
    assert_eq!(c.pc, 0x202);
    c.keypad[0xA] = false;
    let instr = c.decode(0xE2A1);
    c.op_skip_nokeypress(instr);
    assert_eq!(c.pc, 0x204);
    let instr = c.decode(0xE29E);
    c.op_skip_keypress(instr);
    assert_eq!(c.pc, 0x204);
}

#[test]
fn timers_move_between_registers() {
    let mut c = machine();
    c.v[6] = 0x33;
    let instr = c.decode(0xF615);
    c.op_load_dt(instr);
    assert_eq!(c.delay_timer, 0x33);
    let instr = c.decode(0xF618);
    c.op_load_st(instr);
    assert_eq!(c.sound_timer, 0x33);
    c.delay_timer = 0x44;
    let instr = c.decode(0xF707);
    c.op_save_dt(instr);
    assert_eq!(c.v[7], 0x44);
}

#[test]
fn wait_key_stores_first_pressed_key() {
    let mut c = machine();
    c.pc = 0x202;
    c.keypad[0xC] = true;
    c.keypad[0x5] = true;
    let instr = c.decode(0xF30A);
    c.op_wait_key(instr);
    assert_eq!(c.v[3], 0x5);
    assert_eq!(c.pc, 0x202);
}

#[test]
fn wait_key_without_key_rewinds_pc() {
    let mut c = machine();
    c.pc = 0x202;
    c.v[3] = 0x77;
    let instr = c.decode(0xF30A);
    c.op_wait_key(instr);
    assert_eq!(c.pc, 0x200);
    assert_eq!(c.v[3], 0x77);
}

#[test]
fn digit_location_points_at_font() {
    let mut c = machine();
    c.v[1] = 0xA;
    let instr = c.decode(0xF129);
    c.op_digit_location(instr);
    assert_eq!(c.i, 0x50 + 5 * 0xA);
    assert_eq!(&c.memory[c.i as usize..c.i as usize + 5], &[0xF0, 0x90, 0xF0, 0x90, 0x90]);
}

#[test]
fn break_decimal_stores_digits() {
    let mut c = machine();
    c.v[2] = 254;
    c.i = 0x300;
    let instr = c.decode(0xF233);
    c.op_break_decimal(instr);
    assert_eq!(&c.memory[0x300..0x303], &[2, 5, 4]);
    c.v[2] = 7;
    let instr = c.decode(0xF233);
    c.op_break_decimal(instr);
    assert_eq!(&c.memory[0x300..0x303], &[0, 0, 7]);
}

#[test]
fn save_and_load_registers() {
    let mut c = machine();
    for r in 0..16 {
        c.v[r] = (r as u8) * 3 + 1;
    }
    c.i = 0x400;
    let instr = c.decode(0xF355);
    c.op_save_mem(instr);
    assert_eq!(&c.memory[0x400..0x405], &[1, 4, 7, 10, 0]);
    for r in 0..16 {
        c.v[r] = 0;
    }
    let instr = c.decode(0xF265);
    c.op_load_mem(instr);
    assert_eq!(&c.v[0..4], &[1, 4, 7, 0]);
    assert_eq!(c.i, 0x400);
}
