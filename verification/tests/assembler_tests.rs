use chip8::assembler::{assemble, opcode_bytes, parse_register, parse_value, tokenize, try_assemble, AsmError};

fn chars(s: &str) -> Vec<char> {
    s.chars().collect()
}

#[test]
fn ld_assembles_to_6xnn() {
    assert_eq!(assemble("LD V0, 0x0F"), 0x600F);
    assert_eq!(assemble("LD VA, 21"), 0x6A15);
}

#[test]
fn add_immediate_assembles_to_7xnn() {
    assert_eq!(assemble("ADD V0, 3"), 0x7003);
    assert_eq!(assemble("ADD VB,0xFF"), 0x7BFF);
}

#[test]
fn add_register_assembles_to_8xy4() {
    assert_eq!(assemble("ADD V0, V1"), 0x8014);
    assert_eq!(assemble("ADD V2 V0"), 0x8204);
}

#[test]
fn unknown_mnemonic_assembles_to_zero() {
    assert_eq!(assemble("JP 0x200"), 0x0000);
    assert_eq!(try_assemble("JP 0x200"), Err(AsmError::UnknownMnemonic));
    assert_eq!(try_assemble("ld V0, 1"), Err(AsmError::UnknownMnemonic));
}

#[test]
fn missing_tokens_are_reported() {
    assert_eq!(try_assemble(""), Err(AsmError::MissingToken));
    assert_eq!(try_assemble("   , "), Err(AsmError::MissingToken));
    assert_eq!(try_assemble("LD"), Err(AsmError::MissingToken));
    assert_eq!(try_assemble("LD V1"), Err(AsmError::MissingToken));
    assert_eq!(try_assemble("ADD V1,"), Err(AsmError::MissingToken));
}

#[test]
fn bad_operands_are_reported() {
    assert_eq!(try_assemble("LD VG, 1"), Err(AsmError::InvalidRegister));
    assert_eq!(try_assemble("LD V, 1"), Err(AsmError::InvalidRegister));
    assert_eq!(try_assemble("LD VG"), Err(AsmError::InvalidRegister));
    assert_eq!(try_assemble("LD V1, 0xZZ"), Err(AsmError::InvalidHexValue));
    assert_eq!(try_assemble("LD V1, 0x"), Err(AsmError::InvalidHexValue));
    assert_eq!(try_assemble("LD V1, 256"), Err(AsmError::InvalidDecimalValue));
    assert_eq!(try_assemble("LD V1, -1"), Err(AsmError::InvalidDecimalValue));
    assert_eq!(try_assemble("ADD V1, VX"), Err(AsmError::InvalidRegister));
    assert_eq!(try_assemble("ADD V1, 1a"), Err(AsmError::InvalidDecimalValue));
    assert_eq!(try_assemble("LD éA, 1"), Err(AsmError::InvalidRegister));
}

#[test]
fn register_prefix_is_not_checked() {
    // The first character of a register operand is skipped, whatever it is.
    assert_eq!(try_assemble("LD X3, 1"), Ok(0x6301));
}

#[test]
fn large_register_numbers_spill_into_the_family_bits() {
    // V10 is register 0x10: `0x6000 | 0x1000 | nn`.
    assert_eq!(try_assemble("LD V10, 5"), Ok(0x7005));
}

#[test]
fn numbers_accept_plus_sign_and_leading_zeros() {
    assert_eq!(assemble("LD V1, +7"), 0x6107);
    assert_eq!(assemble("LD V1, 0x+f"), 0x610F);
    assert_eq!(assemble("LD V+1, 0007"), 0x6107);
    assert_eq!(try_assemble("LD V1, +"), Err(AsmError::InvalidDecimalValue));
}

#[test]
fn tokenize_splits_at_commas_and_white_space() {
    let toks = tokenize("  LD\tV1,,0x2A \u{3000}x ");
    assert_eq!(toks, vec![chars("LD"), chars("V1"), chars("0x2A"), chars("x")]);
    assert!(tokenize(" , ").is_empty());
}

#[test]
fn parse_register_reads_hex_after_prefix() {
    assert_eq!(parse_register("VA"), 10);
    assert_eq!(parse_register("Vff"), 255);
    assert_eq!(parse_register("V0"), 0);
}

#[test]
fn parse_value_reads_hex_or_decimal() {
    assert_eq!(parse_value("0x1F"), 31);
    assert_eq!(parse_value("0xff"), 255);
    assert_eq!(parse_value("42"), 42);
    assert_eq!(parse_value("255"), 255);
}

#[test]
fn opcode_bytes_are_big_endian() {
    assert_eq!(opcode_bytes(0x600F), [0x60, 0x0F]);
    assert_eq!(opcode_bytes(0x8014), [0x80, 0x14]);
}

#[test]
fn assembled_worked_example_runs() {
    let source = ["LD V0, 5", "LD V1, 10", "ADD V0, V1", "ADD V0, 3", "ADD V2, V0"];
    let mut rom = Vec::new();
    for line in source {
        rom.extend_from_slice(&opcode_bytes(assemble(line)));
    }
    assert_eq!(rom, vec![0x60, 0x05, 0x61, 0x0A, 0x80, 0x14, 0x70, 0x03, 0x82, 0x04]);
    let mut c = chip8::Chip8::new();
    c.load_rom_bytes(&rom).unwrap();
    for _ in 0..source.len() {
        c.cycle().unwrap();
    }
    assert_eq!(c.v[0], 0x12);
    assert_eq!(c.v[1], 0x0A);
    assert_eq!(c.v[2], 0x12);
}

#[test]
fn separators_do_not_change_the_opcode() {
    let spellings = ["LD V0, 0x0F", "  LD V0 ,0x0F ", "LD\tV0,,0x0F", "LD,V0 0x0F", ",LD V0 0x0F,"];
    for line in spellings {
        assert_eq!(try_assemble(line), Ok(0x600F));
    }
    assert_eq!(try_assemble("ADD V1 , V2"), try_assemble("ADD V1,V2"));
    assert_eq!(try_assemble(" LD VG , 1 "), try_assemble("LD VG,1"));
}

#[test]
fn every_byte_reads_back_from_its_text() {
    for n in 0..=255u8 {
        assert_eq!(parse_value(&n.to_string()), n);
        assert_eq!(parse_value(&format!("0x{:X}", n)), n);
        assert_eq!(parse_value(&format!("0x{:02x}", n)), n);
    }
}

#[test]
fn every_register_reads_back_from_its_name() {
    for d in 0..16u8 {
        assert_eq!(parse_register(&format!("V{:X}", d)), d);
        assert_eq!(parse_register(&format!("V{:x}", d)), d);
    }
}
