//! Properties of the machine model that hold across instructions and cycles.
use vstd::prelude::*;
use crate::machine::{
    Machine, family_of, x_of, y_of, n_of, nn_of, nnn_of, font_bytes, initial_machine,
    FONT_START, PROGRAM_START,
};
use crate::assembler::{
    ld_opcode, add_imm_opcode, add_reg_opcode, is_separator, scan_step, scan_tokens, tokens,
    assemble_result, digit_value, digits_value, all_digits, parse_u8, value_of, register_of,
    assemble_tokens, AsmError,
};

verus! {

/// Decoding loses nothing: the fields put back together give the opcode,
/// `NN` is `Y` and `N`, and `NNN` is `X` and `NN`.
pub proof fn law_decode_lossless(op: u16)
    ensures
        family_of(op) * 0x1000 + x_of(op) * 0x100 + y_of(op) * 0x10 + n_of(op) == op,
        nn_of(op) == y_of(op) * 0x10 + n_of(op),
        nnn_of(op) == x_of(op) * 0x100 + nn_of(op),
        family_of(op) < 16 && x_of(op) < 16 && y_of(op) < 16 && n_of(op) < 16,
{
}

/// Opcodes are stored big-endian: with the high byte of `op` at `pc` and its
/// low byte at `pc + 1`, the opcode fetched is `op`.
pub proof fn law_fetch_big_endian(m: Machine, op: u16)
    requires
        m.well_sized(),
        m.can_fetch(),
        m.memory[m.pc as int] == (op / 256) as u8,
        m.memory[m.pc + 1] == (op % 256) as u8,
    ensures
        m.opcode_at_pc() == op,
{
}

/// A loaded ROM is read back by fetching from `0x200`: the opcode at
/// `0x200 + 2k` is made of ROM bytes `2k` (high) and `2k + 1` (low).
pub proof fn law_fetch_loaded_program(m: Machine, rom: Seq<u8>, k: int)
    requires
        m.well_sized(),
        rom.len() <= 0xE00,
        0 <= k,
        2 * k + 1 < rom.len(),
    ensures
        ({
            let loaded = Machine { pc: (PROGRAM_START + 2 * k) as u16, ..m.with_program(rom) };
            loaded.can_fetch() && loaded.opcode_at_pc() == (rom[2 * k] * 256 + rom[2 * k
                + 1]) as u16
        }),
{
}

/// A subroutine return undoes a call: after `2NNN` and then `00EE`, `pc` and
/// `sp` are as before the call and nothing else but the popped stack slot
/// has changed.
pub proof fn law_return_undoes_call(m: Machine, call: u16, r1: u8, r2: u8)
    requires
        m.well_sized(),
        family_of(call) == 2,
        m.can_execute(call),
    ensures
        m.execute(call, r1).can_execute(0x00EE),
        m.execute(call, r1).execute(0x00EE, r2) == (Machine {
            stack: m.stack.update(m.sp as int, m.pc),
            ..m
        }),
{
    assert(family_of(0x00EE) == 0);
    assert(m.execute(call, r1).execute(0x00EE, r2) =~= (Machine {
        stack: m.stack.update(m.sp as int, m.pc),
        ..m
    }));
}

/// Loading registers right after saving them (`FX55` then `FX65`, same `X`
/// and `I`) leaves the registers as they were.
pub proof fn law_load_after_save(m: Machine, op: u16)
    requires
        m.well_sized(),
        m.can_transfer_registers(op),
    ensures
        m.save_registers(op).load_registers(op) == m.save_registers(op),
{
    assert(m.save_registers(op).load_registers(op).v =~= m.v);
}

/// `FX33` writes the decimal digits of `VX`: each is below ten and together
/// they give back `VX`.
pub proof fn law_break_decimal_digits(m: Machine, op: u16)
    requires
        m.well_sized(),
        m.can_break_decimal(),
    ensures
        ({
            let mem = m.break_decimal(op).memory;
            let i = m.i as int;
            &&& mem[i] < 10 && mem[i + 1] < 10 && mem[i + 2] < 10
            &&& mem[i] * 100 + mem[i + 1] * 10 + mem[i + 2] == m.vx(op)
        }),
{
}

/// `8XY4` keeps the carry: with `X` not `F`, the new `VX` plus 256 times
/// `VF` is the full sum, and `VF` is 0 or 1.
pub proof fn law_add_reg_carry(m: Machine, op: u16)
    requires
        m.well_sized(),
        x_of(op) != 15,
    ensures
        ({
            let v2 = m.add_reg(op).v;
            &&& v2[15] <= 1
            &&& v2[x_of(op) as int] + 256 * v2[15] == m.vx(op) + m.vy(op)
        }),
{
}

/// `8XY5` and `8XY7` keep the borrow: with `X` not `F`, the new `VX` minus
/// 256 times the missing borrow is the full difference.
pub proof fn law_sub_borrow(m: Machine, op: u16)
    requires
        m.well_sized(),
        x_of(op) != 15,
    ensures
        ({
            let v2 = m.sub_reg(op).v;
            &&& v2[15] <= 1
            &&& v2[x_of(op) as int] - 256 * (1 - v2[15]) == m.vx(op) - m.vy(op)
        }),
        ({
            let v3 = m.sub_reverse(op).v;
            &&& v3[15] <= 1
            &&& v3[x_of(op) as int] - 256 * (1 - v3[15]) == m.vy(op) - m.vx(op)
        }),
{
}

/// The flag is written after the result: with `X` = `F` the arithmetic
/// result of `8XY4`/`8XY5`/`8XY6`/`8XY7`/`8XYE` is replaced by the flag.
pub proof fn law_flag_written_last(m: Machine, op: u16)
    requires
        m.well_sized(),
    ensures
        m.add_reg(op).v[15] == (if m.vx(op) + m.vy(op) > 0xFF { 1u8 } else { 0u8 }),
        m.sub_reg(op).v[15] == (if m.vx(op) >= m.vy(op) { 1u8 } else { 0u8 }),
        m.shift_right(op).v[15] == m.vx(op) % 2,
        m.sub_reverse(op).v[15] == (if m.vy(op) >= m.vx(op) { 1u8 } else { 0u8 }),
        m.shift_left(op).v[15] == m.vx(op) / 128,
{
}

/// The shifts halve and double `VX`, keeping the bit shifted out in `VF`
/// (with `X` not `F`), and ignore `Y`.
pub proof fn law_shifts(m: Machine, op: u16, other: u16)
    requires
        m.well_sized(),
        x_of(op) != 15,
        x_of(other) == x_of(op),
    ensures
        m.shift_right(op).v[x_of(op) as int] * 2 + m.shift_right(op).v[15] == m.vx(op),
        m.shift_left(op).v[x_of(op) as int] + 256 * m.shift_left(op).v[15] == 2 * m.vx(op),
        m.shift_right(other) == m.shift_right(op),
        m.shift_left(other) == m.shift_left(op),
{
}

/// `7XNN` wraps modulo 256 and leaves `VF` alone unless `X` is `F`.
pub proof fn law_add_imm_no_flag(m: Machine, op: u16)
    requires
        m.well_sized(),
    ensures
        m.add_imm(op).v[x_of(op) as int] == (m.vx(op) + nn_of(op)) % 256,
        x_of(op) != 15 ==> m.add_imm(op).v[15] == m.v[15],
{
}

/// `8XY3` twice with `X` not `Y` gives `VX` back.
pub proof fn law_xor_twice(m: Machine, op: u16)
    requires
        m.well_sized(),
        x_of(op) != y_of(op),
    ensures
        m.set_vx(op, m.vx(op) ^ m.vy(op)).set_vx(
            op,
            m.set_vx(op, m.vx(op) ^ m.vy(op)).vx(op) ^ m.set_vx(op, m.vx(op) ^ m.vy(op)).vy(op),
        ) == m,
{
    let a = m.vx(op);
    let b = m.vy(op);
    assert((a ^ b) ^ b == a) by (bit_vector);
    let m1 = m.set_vx(op, a ^ b);
    assert(m1.vy(op) == b);
    assert(m1.set_vx(op, m1.vx(op) ^ m1.vy(op)).v =~= m.v);
}

/// `CXNN` sets no bit that `NN` does not have, whatever byte was drawn.
pub proof fn law_random_masked(m: Machine, op: u16, random: u8)
    requires
        m.well_sized(),
    ensures
        m.rand_and(op, random).v[x_of(op) as int] | nn_of(op) == nn_of(op),
{
    let nn = nn_of(op);
    assert((random & nn) | nn == nn) by (bit_vector);
}

/// Drawing only switches pixels on, and clears `VF`.
pub proof fn law_draw_only_lights(m: Machine, op: u16, p: int)
    requires
        m.well_sized(),
        0 <= p < 2048,
        m.display[p],
    ensures
        m.draw(op).display[p],
        m.draw(op).v[15] == 0,
{
}

/// A skip moves `pc` by 2 exactly when its condition holds, and changes
/// nothing else.
pub proof fn law_skip_moves_pc_by_two(m: Machine, op: u16, random: u8)
    requires
        m.well_sized(),
        family_of(op) == 3 || family_of(op) == 4 || ((family_of(op) == 5 || family_of(op) == 9)
            && n_of(op) == 0),
        m.can_execute(op),
    ensures
        m.execute(op, random) == m || m.execute(op, random) == (Machine {
            pc: (m.pc + 2) as u16,
            ..m
        }),
{
}

/// Waiting for a key with none held down changes nothing over a whole
/// cycle: `pc` steps back onto the `FX0A`, so the next cycle runs it again.
pub proof fn law_wait_key_repeats(m: Machine, random: u8)
    requires
        m.well_sized(),
        m.can_cycle(),
        family_of(m.opcode_at_pc()) == 0xF,
        nn_of(m.opcode_at_pc()) == 0x0A,
        forall|k: int| 0 <= k < 16 ==> !m.keypad[k],
    ensures
        m.cycle(random) == m,
{
    assert(m.fetched().first_pressed_key() is None);
    assert(m.cycle(random) =~= m);
}

/// Only `CXNN` depends on the random byte: any other cycle is determined by
/// the machine state alone.
pub proof fn law_cycle_deterministic(m: Machine, r1: u8, r2: u8)
    requires
        family_of(m.opcode_at_pc()) != 0xC,
    ensures
        m.cycle(r1) == m.cycle(r2),
{
}

/// A new machine holds the font from `0x50`, and `FX29` with `VX` a hex
/// digit points `I` at that digit's five rows.
pub proof fn law_digit_location_points_at_font(m: Machine, op: u16, row: int)
    requires
        m.well_sized(),
        m.memory.subrange(FONT_START as int, FONT_START + 80) == font_bytes(),
        m.vx(op) < 16,
        0 <= row < 5,
    ensures
        m.can_digit_location(op),
        m.digit_location(op).i == FONT_START + 5 * m.vx(op),
        m.memory[m.digit_location(op).i + row] == font_bytes()[5 * m.vx(op) + row],
{
    let k = 5 * m.vx(op) + row;
    assert(m.memory.subrange(FONT_START as int, FONT_START + 80)[k] == m.memory[FONT_START + k]);
}

/// A new machine has the font in place and starts at `0x200` with an empty
/// stack.
pub proof fn law_initial_font()
    ensures
        initial_machine().well_sized(),
        initial_machine().memory.subrange(FONT_START as int, FONT_START + 80) == font_bytes(),
        initial_machine().pc == PROGRAM_START,
        initial_machine().sp == 0,
{
    assert(initial_machine().memory.subrange(FONT_START as int, FONT_START + 80) =~= font_bytes());
}

/// What the assembler emits decodes back to its operands (for register
/// numbers below 16) and runs as the instruction it names: `LD VX, NN` sets
/// `VX`, `ADD VX, NN` adds without touching the flag, `ADD VX, VY` adds with
/// carry.
pub proof fn law_assembled_opcodes_execute(m: Machine, x: u8, y: u8, nn: u8, random: u8)
    requires
        m.well_sized(),
        x < 16,
        y < 16,
    ensures
        family_of(ld_opcode(x, nn)) == 6 && x_of(ld_opcode(x, nn)) == x && nn_of(ld_opcode(x, nn))
            == nn,
        family_of(add_imm_opcode(x, nn)) == 7 && x_of(add_imm_opcode(x, nn)) == x && nn_of(
            add_imm_opcode(x, nn),
        ) == nn,
        family_of(add_reg_opcode(x, y)) == 8 && x_of(add_reg_opcode(x, y)) == x && y_of(
            add_reg_opcode(x, y),
        ) == y && n_of(add_reg_opcode(x, y)) == 4,
        m.execute(ld_opcode(x, nn), random) == m.set_vx(ld_opcode(x, nn), nn),
        m.execute(add_imm_opcode(x, nn), random) == m.add_imm(add_imm_opcode(x, nn)),
        m.execute(add_reg_opcode(x, y), random) == m.add_reg(add_reg_opcode(x, y)),
{
    let xx = x as u16;
    let yy = y as u16;
    let n16 = nn as u16;
    assert(xx < 16 && n16 < 256 ==> ((0x6000u16 | (xx << 8u16) | n16) == 0x6000u16 + xx * 256
        + n16)) by (bit_vector);
    assert(xx < 16 && n16 < 256 ==> ((0x7000u16 | (xx << 8u16) | n16) == 0x7000u16 + xx * 256
        + n16)) by (bit_vector);
    assert(xx < 16 && yy < 16 ==> ((0x8000u16 | (xx << 8u16) | (yy << 4u16) | 0x0004u16)
        == 0x8000u16 + xx * 256 + yy * 16 + 4)) by (bit_vector);
}

/// The tokenizer's state after reading `b`, starting from state `st`.
spec fn scan_from(st: (Seq<Seq<char>>, Seq<char>), b: Seq<char>) -> (Seq<Seq<char>>, Seq<char>)
    decreases b.len(),
{
    if b.len() == 0 {
        st
    } else {
        scan_step(scan_from(st, b.drop_last()), b.last())
    }
}

/// Reading `a + b` is reading `a`, then reading on through `b`.
proof fn lemma_scan_append(a: Seq<char>, b: Seq<char>)
    ensures
        scan_tokens(a + b) == scan_from(scan_tokens(a), b),
    decreases b.len(),
{
    if b.len() == 0 {
        assert(a + b =~= a);
    } else {
        lemma_scan_append(a, b.drop_last());
        assert((a + b).drop_last() =~= a + b.drop_last());
        assert((a + b).last() == b.last());
    }
}

/// Reading on through `p + q` is reading on through `p`, then through `q`.
proof fn lemma_scan_from_concat(st: (Seq<Seq<char>>, Seq<char>), p: Seq<char>, q: Seq<char>)
    ensures
        scan_from(st, p + q) == scan_from(scan_from(st, p), q),
    decreases q.len(),
{
    if q.len() == 0 {
        assert(p + q =~= p);
    } else {
        lemma_scan_from_concat(st, p, q.drop_last());
        assert((p + q).drop_last() =~= p + q.drop_last());
        assert((p + q).last() == q.last());
    }
}

/// Reading a single character is one step.
proof fn lemma_scan_from_one(st: (Seq<Seq<char>>, Seq<char>), c: char)
    ensures
        scan_from(st, seq![c]) == scan_step(st, c),
{
    assert(seq![c].drop_last() =~= Seq::<char>::empty());
    assert(scan_from(st, Seq::<char>::empty()) == st);
    assert(seq![c].last() == c);
}

/// After an empty prefix or a separator no token is being read.
proof fn lemma_no_open_token(a: Seq<char>)
    requires
        a.len() == 0 || is_separator(a.last()),
    ensures
        scan_tokens(a).1.len() == 0,
{
}

/// Lines that split into the same tokens assemble alike: to the same
/// opcode, or to the same error.
pub proof fn law_assemble_depends_on_tokens_only(line1: Seq<char>, line2: Seq<char>)
    requires
        tokens(line1) == tokens(line2),
    ensures
        assemble_result(line1) == assemble_result(line2),
{
}

/// One more separator (a comma or white space) next to a separator, or at
/// either end of a line, changes neither the tokens nor what the line
/// assembles to.
pub proof fn law_assemble_extra_separator(a: Seq<char>, c: char, b: Seq<char>)
    requires
        is_separator(c),
        a.len() == 0 || is_separator(a.last()) || b.len() == 0 || is_separator(b[0]),
    ensures
        tokens(a + seq![c] + b) == tokens(a + b),
        assemble_result(a + seq![c] + b) == assemble_result(a + b),
{
    let st = scan_tokens(a);
    lemma_scan_append(a, seq![c]);
    lemma_scan_from_one(st, c);
    assert(scan_tokens(a + seq![c]) == scan_step(st, c));
    lemma_scan_append(a + seq![c], b);
    lemma_scan_append(a, b);
    if a.len() == 0 || is_separator(a.last()) {
        lemma_no_open_token(a);
        assert(scan_step(st, c) == st);
    } else if b.len() == 0 {
        assert(a + seq![c] + b =~= a + seq![c]);
        assert(a + b =~= a);
    } else {
        let b0 = b[0];
        let rest = b.drop_first();
        assert(b =~= seq![b0] + rest);
        let sc = scan_step(st, c);
        lemma_scan_from_concat(sc, seq![b0], rest);
        lemma_scan_from_one(sc, b0);
        assert(scan_step(sc, b0) == sc);
        lemma_scan_from_concat(st, seq![b0], rest);
        lemma_scan_from_one(st, b0);
        assert(scan_step(st, b0) == sc);
    }
}

/// Swapping separators for other separators (a comma for a space, a tab for
/// a space) changes neither the tokens nor what the line assembles to.
pub proof fn law_assemble_separator_swap(line1: Seq<char>, line2: Seq<char>)
    requires
        line1.len() == line2.len(),
        forall|k: int|
            0 <= k < line1.len() ==> (is_separator(#[trigger] line1[k]) == is_separator(line2[k])
                && (!is_separator(line1[k]) ==> line1[k] == line2[k])),
    ensures
        tokens(line1) == tokens(line2),
        assemble_result(line1) == assemble_result(line2),
{
    lemma_scan_swap(line1, line2);
}

/// The tokenizer states agree on lines whose separators sit at the same
/// places and whose other characters are the same.
proof fn lemma_scan_swap(line1: Seq<char>, line2: Seq<char>)
    requires
        line1.len() == line2.len(),
        forall|k: int|
            0 <= k < line1.len() ==> (is_separator(#[trigger] line1[k]) == is_separator(line2[k])
                && (!is_separator(line1[k]) ==> line1[k] == line2[k])),
    ensures
        scan_tokens(line1) == scan_tokens(line2),
    decreases line1.len(),
{
    if line1.len() > 0 {
        let d1 = line1.drop_last();
        let d2 = line2.drop_last();
        assert forall|k: int| 0 <= k < d1.len() implies (is_separator(#[trigger] d1[k])
            == is_separator(d2[k]) && (!is_separator(d1[k]) ==> d1[k] == d2[k])) by {
            assert(d1[k] == line1[k] && d2[k] == line2[k]);
        }
        lemma_scan_swap(d1, d2);
        assert(is_separator(line1[line1.len() - 1]) == is_separator(line2[line2.len() - 1]));
    }
}

/// The character of hex digit `d` (below 16): `0`-`9`, then `A`-`F` when
/// `upper`, else `a`-`f`.
pub open spec fn hex_char(d: int, upper: bool) -> char {
    if d < 10 {
        (0x30 + d) as char
    } else if upper {
        (0x41 + d - 10) as char
    } else {
        (0x61 + d - 10) as char
    }
}

/// `n` written in decimal without leading zeros, as `format!("{}", n)`.
pub open spec fn decimal_text(n: u8) -> Seq<char> {
    if n < 10 {
        seq![hex_char(n as int, true)]
    } else if n < 100 {
        seq![hex_char((n / 10) as int, true), hex_char((n % 10) as int, true)]
    } else {
        seq![hex_char((n / 100) as int, true), hex_char(((n / 10) % 10) as int, true), hex_char((n % 10) as int, true)]
    }
}

/// `n` in upper-case hex without leading zeros, as `format!("{:X}", n)`.
pub open spec fn hex_text_upper(n: u8) -> Seq<char> {
    if n < 16 {
        seq![hex_char(n as int, true)]
    } else {
        seq![hex_char((n / 16) as int, true), hex_char((n % 16) as int, true)]
    }
}

/// `n` in two lower-case hex digits, as `format!("{:02x}", n)`.
pub open spec fn hex_text_lower_padded(n: u8) -> Seq<char> {
    seq![hex_char((n / 16) as int, false), hex_char((n % 16) as int, false)]
}

/// A hex digit character reads back as its value, in base 16 and, below
/// ten, in base 10.
proof fn lemma_hex_char_value(d: int, upper: bool)
    requires
        0 <= d < 16,
    ensures
        digit_value(hex_char(d, upper), 16) == Some(d as nat),
        d < 10 ==> digit_value(hex_char(d, upper), 10) == Some(d as nat),
        hex_char(d, upper) != '+',
{
}

/// The value of one, two or three digits.
proof fn lemma_short_digits(c0: char, c1: char, c2: char, radix: nat)
    ensures
        digits_value(seq![c0], radix) == digits_value(Seq::<char>::empty(), radix) * radix
            + match digit_value(c0, radix) {
            Some(d) => d,
            None => 0,
        },
        digits_value(seq![c0, c1], radix) == digits_value(seq![c0], radix) * radix
            + match digit_value(c1, radix) {
            Some(d) => d,
            None => 0,
        },
        digits_value(seq![c0, c1, c2], radix) == digits_value(seq![c0, c1], radix) * radix
            + match digit_value(c2, radix) {
            Some(d) => d,
            None => 0,
        },
        digits_value(Seq::<char>::empty(), radix) == 0,
{
    assert(seq![c0].drop_last() =~= Seq::<char>::empty());
    assert(seq![c0, c1].drop_last() =~= seq![c0]);
    assert(seq![c0, c1, c2].drop_last() =~= seq![c0, c1]);
}

/// A byte in decimal reads back.
proof fn lemma_decimal_round_trip(n: u8)
    ensures
        value_of(decimal_text(n)) == Some(n),
{
    let dec = decimal_text(n);
    if n < 10 {
        lemma_hex_char_value(n as int, true);
        lemma_short_digits(dec[0], dec[0], dec[0], 10);
    } else if n < 100 {
        lemma_hex_char_value((n / 10) as int, true);
        lemma_hex_char_value((n % 10) as int, true);
        lemma_short_digits(dec[0], dec[1], dec[1], 10);
    } else {
        lemma_hex_char_value((n / 100) as int, true);
        lemma_hex_char_value(((n / 10) % 10) as int, true);
        lemma_hex_char_value((n % 10) as int, true);
        lemma_short_digits(dec[0], dec[1], dec[2], 10);
        assert(digits_value(dec, 10) == (n / 100) * 100 + ((n / 10) % 10) * 10 + n % 10);
    }
    assert(all_digits(dec, 10));
}

/// A byte in upper-case hex after `0x` reads back.
proof fn lemma_hex_upper_round_trip(n: u8)
    ensures
        value_of(seq!['0', 'x'] + hex_text_upper(n)) == Some(n),
{
    let up = seq!['0', 'x'] + hex_text_upper(n);
    let hu = hex_text_upper(n);
    assert(up.skip(2) =~= hu);
    if n < 16 {
        lemma_hex_char_value(n as int, true);
        lemma_short_digits(hu[0], hu[0], hu[0], 16);
    } else {
        lemma_hex_char_value((n / 16) as int, true);
        lemma_hex_char_value((n % 16) as int, true);
        lemma_short_digits(hu[0], hu[1], hu[1], 16);
    }
    assert(all_digits(hu, 16));
}

/// A byte in two lower-case hex digits after `0x` reads back.
proof fn lemma_hex_lower_round_trip(n: u8)
    ensures
        value_of(seq!['0', 'x'] + hex_text_lower_padded(n)) == Some(n),
{
    let lo = seq!['0', 'x'] + hex_text_lower_padded(n);
    let hl = hex_text_lower_padded(n);
    assert(lo.skip(2) =~= hl);
    lemma_hex_char_value((n / 16) as int, false);
    lemma_hex_char_value((n % 16) as int, false);
    lemma_short_digits(hl[0], hl[1], hl[1], 16);
    assert(all_digits(hl, 16));
}

/// A byte written in decimal, in upper-case hex after `0x`, or in two
/// lower-case hex digits after `0x` reads back as that byte.
pub proof fn law_parse_value_round_trip(n: u8)
    ensures
        value_of(decimal_text(n)) == Some(n),
        value_of(seq!['0', 'x'] + hex_text_upper(n)) == Some(n),
        value_of(seq!['0', 'x'] + hex_text_lower_padded(n)) == Some(n),
{
    lemma_decimal_round_trip(n);
    lemma_hex_upper_round_trip(n);
    lemma_hex_lower_round_trip(n);
}

/// `V` followed by one hex digit, in either case, reads back as that
/// register number.
pub proof fn law_parse_register_round_trip(d: u8)
    requires
        d < 16,
    ensures
        register_of(seq!['V', hex_char(d as int, true)]) == Some(d),
        register_of(seq!['V', hex_char(d as int, false)]) == Some(d),
{
    lemma_hex_char_value(d as int, true);
    lemma_hex_char_value(d as int, false);
    let c1 = hex_char(d as int, true);
    let c2 = hex_char(d as int, false);
    assert(seq!['V', c1].drop_first() =~= seq![c1]);
    assert(seq!['V', c2].drop_first() =~= seq![c2]);
    lemma_short_digits(c1, c1, c1, 16);
    lemma_short_digits(c2, c2, c2, 16);
    assert(all_digits(seq![c1], 16));
    assert(all_digits(seq![c2], 16));
}

/// Reading on through `b` from a state with no open token appends the
/// tokens of `b` to those already completed.
proof fn lemma_scan_from_closed(done: Seq<Seq<char>>, b: Seq<char>)
    ensures
        scan_from((done, Seq::<char>::empty()), b) == (done + scan_tokens(b).0, scan_tokens(b).1),
    decreases b.len(),
{
    if b.len() == 0 {
        assert(done + Seq::<Seq<char>>::empty() =~= done);
    } else {
        lemma_scan_from_closed(done, b.drop_last());
        let prev = scan_tokens(b.drop_last());
        assert((done + prev.0).push(prev.1) =~= done + prev.0.push(prev.1));
    }
}

/// A separator splits a line: the tokens of `a`, a separator, then `b` are
/// the tokens of `a` followed by those of `b`.
pub proof fn law_tokens_split(a: Seq<char>, c: char, b: Seq<char>)
    requires
        is_separator(c),
    ensures
        tokens(a + seq![c] + b) == tokens(a) + tokens(b),
{
    let st = scan_tokens(a);
    lemma_scan_append(a, seq![c]);
    lemma_scan_from_one(st, c);
    assert(scan_tokens(a + seq![c]) == (tokens(a), Seq::<char>::empty()));
    lemma_scan_append(a + seq![c], b);
    lemma_scan_from_closed(tokens(a), b);
    let sb = scan_tokens(b);
    assert((tokens(a) + sb.0).push(sb.1) =~= tokens(a) + sb.0.push(sb.1));
}

/// Reading a run of non-separators leaves it all as the open token.
proof fn lemma_scan_word(s: Seq<char>)
    requires
        forall|k: int| 0 <= k < s.len() ==> !is_separator(#[trigger] s[k]),
    ensures
        scan_tokens(s) == (Seq::<Seq<char>>::empty(), s),
    decreases s.len(),
{
    if s.len() > 0 {
        assert(forall|k: int| 0 <= k < s.drop_last().len() ==> s.drop_last()[k] == s[k]);
        lemma_scan_word(s.drop_last());
        assert(s.drop_last().push(s.last()) =~= s);
    } else {
        assert(s =~= Seq::<char>::empty());
    }
}

/// A non-empty run of characters that are neither commas nor white space is
/// one token; an empty line has none.
pub proof fn law_tokens_of_word(s: Seq<char>)
    requires
        forall|k: int| 0 <= k < s.len() ==> !is_separator(#[trigger] s[k]),
    ensures
        s.len() > 0 ==> tokens(s) == seq![s],
        s.len() == 0 ==> tokens(s) == Seq::<Seq<char>>::empty(),
{
    lemma_scan_word(s);
    assert(Seq::<Seq<char>>::empty().push(s) =~= seq![s]);
}

/// What a line's tokens assemble to, for register numbers below 16:
/// `LD VX, NN` is `0x6000 + 0x100 X + NN`, `ADD VX, NN` is
/// `0x7000 + 0x100 X + NN`, `ADD VX, VY` is `0x8004 + 0x100 X + 0x10 Y`;
/// tokens after the third are ignored; no tokens is a missing token, any
/// other mnemonic is unknown, and a bad first operand is an invalid register.
pub proof fn law_assemble_tokens(t: Seq<Seq<char>>, x: u8, y: u8, nn: u8)
    requires
        x < 16,
        y < 16,
    ensures
        t.len() == 0 ==> assemble_tokens(t) == Err::<u16, AsmError>(AsmError::MissingToken),
        t.len() > 0 && t[0] != seq!['L', 'D'] && t[0] != seq!['A', 'D', 'D'] ==> assemble_tokens(t)
            == Err::<u16, AsmError>(AsmError::UnknownMnemonic),
        t.len() >= 2 && (t[0] == seq!['L', 'D'] || t[0] == seq!['A', 'D', 'D']) && register_of(
            t[1],
        ) is None ==> assemble_tokens(t) == Err::<u16, AsmError>(AsmError::InvalidRegister),
        t.len() >= 3 && t[0] == seq!['L', 'D'] && register_of(t[1]) == Some(x) && value_of(t[2])
            == Some(nn) ==> assemble_tokens(t) == Ok::<u16, AsmError>(
            (0x6000 + 0x100 * x + nn) as u16,
        ),
        t.len() >= 3 && t[0] == seq!['A', 'D', 'D'] && register_of(t[1]) == Some(x) && !(t[2].len()
            > 0 && t[2][0] == 'V') && value_of(t[2]) == Some(nn) ==> assemble_tokens(t) == Ok::<
            u16,
            AsmError,
        >((0x7000 + 0x100 * x + nn) as u16),
        t.len() >= 3 && t[0] == seq!['A', 'D', 'D'] && register_of(t[1]) == Some(x) && t[2].len()
            > 0 && t[2][0] == 'V' && register_of(t[2]) == Some(y) ==> assemble_tokens(t) == Ok::<
            u16,
            AsmError,
        >((0x8004 + 0x100 * x + 0x10 * y) as u16),
{
    let xx = x as u16;
    let yy = y as u16;
    let n16 = nn as u16;
    assert(xx < 16 && n16 < 256 ==> ((0x6000u16 | (xx << 8u16) | n16) == 0x6000u16 + xx * 256
        + n16)) by (bit_vector);
    assert(xx < 16 && n16 < 256 ==> ((0x7000u16 | (xx << 8u16) | n16) == 0x7000u16 + xx * 256
        + n16)) by (bit_vector);
    assert(xx < 16 && yy < 16 ==> ((0x8000u16 | (xx << 8u16) | (yy << 4u16) | 0x0004u16)
        == 0x8000u16 + xx * 256 + yy * 16 + 4)) by (bit_vector);
    assert(seq!['L', 'D'] != seq!['A', 'D', 'D']) by {
        assert(seq!['L', 'D'].len() != seq!['A', 'D', 'D'].len());
    }
}

/// Commas and the ASCII white-space characters separate tokens; letters,
/// digits, `+` and `x` do not.
pub proof fn law_ascii_separators()
    ensures
        is_separator(','),
        is_separator(' '),
        is_separator('\t'),
        is_separator('\n'),
        is_separator('\r'),
        is_separator('\x0B'),
        is_separator('\x0C'),
        forall|c: char|
            ('0' <= c <= '9' || 'a' <= c <= 'z' || 'A' <= c <= 'Z' || c == '+') ==> !is_separator(
                c,
            ),
{
}

/// The only characters read as digits are `0`-`9` in base 10 and `0`-`9`,
/// `a`-`f`, `A`-`F` in base 16, each with its own value.
pub proof fn law_digit_characters(c: char)
    ensures
        digit_value(c, 10) matches Some(d) ==> d < 10 && c == hex_char(d as int, true),
        digit_value(c, 16) matches Some(d) ==> d < 16 && (c == hex_char(d as int, true) || c
            == hex_char(d as int, false)),
{
}

/// Three decimal digits worth 256 or more are not a byte.
pub proof fn law_decimal_overflow(n: int)
    requires
        256 <= n < 1000,
    ensures
        value_of(seq![hex_char(n / 100, true), hex_char((n / 10) % 10, true), hex_char(n % 10, true)])
            is None,
{
    let s = seq![hex_char(n / 100, true), hex_char((n / 10) % 10, true), hex_char(n % 10, true)];
    lemma_hex_char_value(n / 100, true);
    lemma_hex_char_value((n / 10) % 10, true);
    lemma_hex_char_value(n % 10, true);
    lemma_short_digits(s[0], s[1], s[2], 10);
    assert(digits_value(s, 10) == (n / 100) * 100 + ((n / 10) % 10) * 10 + n % 10);
}

} // verus!
