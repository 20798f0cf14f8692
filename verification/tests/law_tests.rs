use chip8::Chip8;

fn exec(c: &mut Chip8, op: u16) {
    let instr = c.decode(op);
    assert!(c.can_execute(&instr));
    c.execute(instr).unwrap();
}

#[test]
fn return_undoes_call_on_concrete_machine() {
    let mut c = Chip8::new();
    c.pc = 0x234;
    c.sp = 3;
    c.v[5] = 0x55;
    let before_v = c.v;
    exec(&mut c, 0x2789);
    exec(&mut c, 0x00EE);
    assert_eq!(c.pc, 0x234);
    assert_eq!(c.sp, 3);
    assert_eq!(c.v, before_v);
    assert_eq!(c.stack[3], 0x234);
}

#[test]
fn load_after_save_keeps_registers() {
    let mut c = Chip8::new();
    for r in 0..16 {
        c.v[r] = 0xF0 - r as u8;
    }
    c.i = 0x500;
    let before = c.v;
    exec(&mut c, 0xFF55);
    exec(&mut c, 0xFF65);
    assert_eq!(c.v, before);
}

#[test]
fn decimal_digits_recompose() {
    for value in [0u8, 9, 10, 99, 100, 128, 255] {
        let mut c = Chip8::new();
        c.v[0] = value;
        c.i = 0x600;
        exec(&mut c, 0xF033);
        let m = &c.memory[0x600..0x603];
        assert!(m.iter().all(|&d| d < 10));
        assert_eq!(m[0] as u16 * 100 + m[1] as u16 * 10 + m[2] as u16, value as u16);
    }
}

#[test]
fn carry_and_borrow_recompose() {
    for (a, b) in [(0u8, 0u8), (255, 1), (128, 128), (17, 200), (200, 17)] {
        let mut c = Chip8::new();
        c.v[1] = a;
        c.v[2] = b;
        exec(&mut c, 0x8124);
        assert_eq!(c.v[1] as u16 + 256 * c.v[0xF] as u16, a as u16 + b as u16);
        c.v[1] = a;
        exec(&mut c, 0x8125);
        assert_eq!(c.v[1] as i32 - 256 * (1 - c.v[0xF] as i32), a as i32 - b as i32);
        c.v[1] = a;
        exec(&mut c, 0x8127);
        assert_eq!(c.v[1] as i32 - 256 * (1 - c.v[0xF] as i32), b as i32 - a as i32);
    }
}

#[test]
fn shifts_keep_the_shifted_out_bit() {
    for a in [0u8, 1, 2, 127, 128, 129, 255] {
        let mut c = Chip8::new();
        c.v[4] = a;
        exec(&mut c, 0x8456);
        assert_eq!(c.v[4] as u16 * 2 + c.v[0xF] as u16, a as u16);
        c.v[4] = a;
        exec(&mut c, 0x849E);
        assert_eq!(c.v[4] as u16 + 256 * c.v[0xF] as u16, 2 * a as u16);
    }
}

#[test]
fn xor_twice_restores_register() {
    let mut c = Chip8::new();
    c.v[1] = 0x5A;
    c.v[2] = 0x3C;
    exec(&mut c, 0x8123);
    exec(&mut c, 0x8123);
    assert_eq!(c.v[1], 0x5A);
}

#[test]
fn flag_written_after_result() {
    let mut c = Chip8::new();
    c.v[0xF] = 0x80;
    c.v[1] = 0x01;
    exec(&mut c, 0x8F16);
    assert_eq!(c.v[0xF], 0);
    c.v[0xF] = 0x81;
    exec(&mut c, 0x8F1E);
    assert_eq!(c.v[0xF], 1);
}

#[test]
fn waiting_for_a_key_repeats_the_instruction() {
    let mut c = Chip8::new();
    c.load_rom_bytes(&[0xF3, 0x0A]).unwrap();
    for _ in 0..3 {
        assert!(c.can_cycle());
        c.cycle().unwrap();
        assert_eq!(c.pc, 0x200);
    }
    c.keypad[7] = true;
    c.cycle().unwrap();
    assert_eq!(c.pc, 0x202);
    assert_eq!(c.v[3], 7);
}

#[test]
fn drawing_only_lights_pixels() {
    let mut c = Chip8::new();
    for p in (0..2048).step_by(3) {
        c.display[p] = true;
    }
    let before = c.display;
    c.i = 0x50;
    c.v[0] = 10;
    c.v[1] = 10;
    exec(&mut c, 0xD015);
    for p in 0..2048 {
        assert!(!before[p] || c.display[p]);
    }
    assert_eq!(c.v[0xF], 0);
}

#[test]
fn skips_move_pc_by_zero_or_two() {
    for op in [0x3000u16, 0x3001, 0x4000, 0x4001, 0x5010, 0x9010] {
        let mut c = Chip8::new();
        exec(&mut c, op);
        assert!(c.pc == 0x200 || c.pc == 0x202);
    }
}

#[test]
fn every_font_digit_is_addressable() {
    let c0 = Chip8::new();
    for d in 0u8..16 {
        let mut c = Chip8::new();
        c.v[0] = d;
        exec(&mut c, 0xF029);
        let start = c.i as usize;
        assert_eq!(start, 0x50 + 5 * d as usize);
        assert_eq!(&c.memory[start..start + 5], &c0.memory[0x50 + 5 * d as usize..0x55 + 5 * d as usize]);
    }
}
