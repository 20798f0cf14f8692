use chip8::cpu::{Chip8, LoadError};

const FONT: [u8; 80] = [
    0xF0, 0x90, 0x90, 0x90, 0xF0, 0x20, 0x60, 0x20, 0x20, 0x70, 0xF0, 0x10, 0xF0, 0x80, 0xF0,
    0xF0, 0x10, 0xF0, 0x10, 0xF0, 0x90, 0x90, 0xF0, 0x10, 0x10, 0xF0, 0x80, 0xF0, 0x10, 0xF0,
    0xF0, 0x80, 0xF0, 0x90, 0xF0, 0xF0, 0x10, 0x20, 0x40, 0x40, 0xF0, 0x90, 0xF0, 0x90, 0xF0,
    0xF0, 0x90, 0xF0, 0x10, 0xF0, 0xF0, 0x90, 0xF0, 0x90, 0x90, 0xE0, 0x90, 0xE0, 0x90, 0xE0,
    0xF0, 0x80, 0x80, 0x80, 0xF0, 0xE0, 0x90, 0x90, 0x90, 0xE0, 0xF0, 0x80, 0xF0, 0x80, 0xF0,
    0xF0, 0x80, 0xF0, 0x80, 0x80,
];

#[test]
fn new_machine_has_font_and_starts_at_0x200() {
    let c = Chip8::new();
    assert_eq!(c.pc, 0x200);
    assert_eq!(c.i, 0);
    assert_eq!(c.sp, 0);
    assert_eq!(c.v, [0u8; 16]);
    assert_eq!(&c.memory[0x50..0xA0], &FONT[..]);
    assert!(c.memory[..0x50].iter().all(|&b| b == 0));
    assert!(c.memory[0xA0..].iter().all(|&b| b == 0));
    assert!(c.display.iter().all(|&p| !p));
    assert!(c.keypad.iter().all(|&k| !k));
    assert_eq!(c.delay_timer, 0);
    assert_eq!(c.sound_timer, 0);
}

#[test]
fn fetch_reads_big_endian_and_advances_pc() {
    let mut c = Chip8::new();
    c.memory[0x200] = 0x7A;
    c.memory[0x201] = 0x15;
    assert_eq!(c.fetch(), 0x7A15);
    assert_eq!(c.pc, 0x202);
}

#[test]
fn decode_splits_fields() {
    let c = Chip8::new();
    let instr = c.decode(0xD12F);
    assert_eq!(instr.opcode(), 0xD12F);
    assert_eq!(instr.family(), 0xD);
    assert_eq!(instr.x(), 1);
    assert_eq!(instr.y(), 2);
    assert_eq!(instr.n(), 0xF);
    assert_eq!(instr.nn(), 0x2F);
    assert_eq!(instr.nnn(), 0x12F);
}

#[test]
fn load_rom_bytes_copies_from_0x200() {
    let mut c = Chip8::new();
    assert_eq!(c.load_rom_bytes(&[1, 2, 3]), Ok(()));
    assert_eq!(&c.memory[0x200..0x203], &[1, 2, 3]);
    assert_eq!(c.memory[0x203], 0);
}

#[test]
fn load_rom_bytes_fills_memory_exactly() {
    let mut c = Chip8::new();
    let rom = vec![0xAB; 0xE00];
    assert_eq!(c.load_rom_bytes(&rom), Ok(()));
    assert_eq!(c.memory[0xFFF], 0xAB);
    assert_eq!(c.memory[0x1FF], 0);
}

#[test]
fn load_rom_bytes_refuses_oversized_rom() {
    let mut c = Chip8::new();
    let rom = vec![0xAB; 0xE01];
    assert_eq!(c.load_rom_bytes(&rom), Err(LoadError::RomTooLarge));
    assert!(c.memory[0x200..].iter().all(|&b| b == 0));
}

#[test]
fn worked_example_program() {
    // 60 05 61 0A 80 14 70 03 82 04 80 21, six cycles.
    let mut c = Chip8::new();
    let rom = [0x60, 0x05, 0x61, 0x0A, 0x80, 0x14, 0x70, 0x03, 0x82, 0x04, 0x80, 0x21];
    c.load_rom_bytes(&rom).unwrap();
    for _ in 0..6 {
        assert!(c.can_cycle());
        c.cycle().unwrap();
    }
    // the last opcode, 8021, is V0 |= V2, and V0 == V2 == 0x12 by then
    assert_eq!(c.v[0], 0x12);
    assert_eq!(c.v[1], 0x0A);
    assert_eq!(c.v[2], 0x12);
    assert_eq!(c.pc, 0x20C);
}

#[test]
fn unknown_opcodes_change_nothing() {
    for op in [0x0123u16, 0x5121, 0x8128, 0x912F, 0xE1FF, 0xF1FF] {
        let mut c = Chip8::new();
        c.v[1] = 7;
        let before_v = c.v;
        let instr = c.decode(op);
        assert!(c.can_execute(&instr));
        c.execute(instr).unwrap();
        assert_eq!(c.v, before_v);
        assert_eq!(c.pc, 0x200);
        assert_eq!(c.i, 0);
    }
}

#[test]
fn execute_dispatches_each_family() {
    let mut c = Chip8::new();
    let run = |c: &mut Chip8, op: u16| {
        let instr = c.decode(op);
        assert!(c.can_execute(&instr));
        c.execute(instr).unwrap();
    };
    run(&mut c, 0x6A15);
    assert_eq!(c.v[0xA], 0x15);
    run(&mut c, 0x7A01);
    assert_eq!(c.v[0xA], 0x16);
    run(&mut c, 0x8BA0);
    assert_eq!(c.v[0xB], 0x16);
    run(&mut c, 0xA123);
    assert_eq!(c.i, 0x123);
    run(&mut c, 0x1456);
    assert_eq!(c.pc, 0x456);
    run(&mut c, 0x2600);
    assert_eq!(c.pc, 0x600);
    assert_eq!(c.sp, 1);
    run(&mut c, 0x00EE);
    assert_eq!(c.pc, 0x456);
    assert_eq!(c.sp, 0);
    run(&mut c, 0xFA15);
    assert_eq!(c.delay_timer, 0x16);
    run(&mut c, 0xFB18);
    assert_eq!(c.sound_timer, 0x16);
    c.display[5] = true;
    run(&mut c, 0x00E0);
    assert!(!c.display[5]);
}

#[test]
fn execute_random_family_masks_with_nn() {
    for _ in 0..50 {
        let mut c = Chip8::new();
        let instr = c.decode(0xC30F);
        c.execute(instr).unwrap();
        assert_eq!(c.v[3] & 0xF0, 0);
    }
}

#[test]
fn execute_with_random_uses_given_byte() {
    let mut c = Chip8::new();
    let instr = c.decode(0xC33C);
    c.execute_with_random(instr, 0xFF);
    assert_eq!(c.v[3], 0x3C);
}

#[test]
fn can_cycle_refuses_fetch_past_memory() {
    let mut c = Chip8::new();
    c.pc = 0xFFF;
    assert!(!c.can_cycle());
    c.pc = 0xFFE;
    assert!(c.can_cycle());
}

#[test]
fn can_execute_refuses_return_on_empty_stack() {
    let c = Chip8::new();
    let instr = c.decode(0x00EE);
    assert!(!c.can_execute(&instr));
}

#[test]
fn can_execute_refuses_call_on_full_stack() {
    let mut c = Chip8::new();
    c.sp = 16;
    let instr = c.decode(0x2300);
    assert!(!c.can_execute(&instr));
    c.sp = 15;
    let instr = c.decode(0x2300);
    assert!(c.can_execute(&instr));
}

#[test]
fn can_execute_checks_memory_and_address_bounds() {
    let mut c = Chip8::new();
    c.i = 0xFFE;
    assert!(!c.can_execute(&c.decode(0xF033)));
    c.i = 0xFFD;
    assert!(c.can_execute(&c.decode(0xF033)));
    c.i = 0xFF1;
    assert!(!c.can_execute(&c.decode(0xFF55)));
    assert!(c.can_execute(&c.decode(0xFE65)));
    c.v[2] = 52;
    assert!(!c.can_execute(&c.decode(0xF229)));
    c.v[2] = 51;
    assert!(c.can_execute(&c.decode(0xF229)));
    c.v[3] = 16;
    assert!(!c.can_execute(&c.decode(0xE39E)));
    assert!(!c.can_execute(&c.decode(0xE3A1)));
    c.i = 0xFFFF;
    c.v[4] = 1;
    assert!(!c.can_execute(&c.decode(0xF41E)));
    c.pc = 0;
    assert!(!c.can_execute(&c.decode(0xF00A)));
    c.keypad[9] = true;
    assert!(c.can_execute(&c.decode(0xF00A)));
}

#[test]
fn can_execute_checks_sprite_bounds() {
    let mut c = Chip8::new();
    // digit 0 of the font, drawn on the last row: rows below the screen are lit
    c.i = 0x50;
    c.v[0] = 0;
    c.v[1] = 31;
    assert!(!c.can_execute(&c.decode(0xD015)));
    assert!(c.can_execute(&c.decode(0xD011)));
    c.v[1] = 27;
    assert!(c.can_execute(&c.decode(0xD015)));
    // sprite rows past the end of memory
    c.i = 0xFFE;
    assert!(!c.can_execute(&c.decode(0xD013)));
    assert!(c.can_execute(&c.decode(0xD010)));
}
