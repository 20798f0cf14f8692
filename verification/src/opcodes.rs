//! One method of [`Chip8`] per implemented instruction.
use vstd::prelude::*;
use rand::TryRng;
use crate::cpu::{Chip8, Instruction, RandomSourceError};
use crate::machine::{Machine, n_of, nn_of, x_of};

verus! {

/// `rand::rngs::SysError` (`getrandom::Error`), the error that the operating
/// system's random source reports.
#[verifier::external_type_specification]
#[verifier::external_body]
pub struct ExSysError(rand::rngs::SysError);

/// `TryRng::try_next_u32` on `rand::rngs::SysRng`: a random `u32` from the
/// operating system's random source, or the error that source reports. The
/// call reports failure through its result rather than by panicking. The
/// value depends on chance, so nothing is claimed of it.
#[verifier::external_body]
fn system_random_u32() -> (r: Result<u32, rand::rngs::SysError>) {
    rand::rngs::SysRng.try_next_u32()
}

/// Whether `DXYN` has lit display pixel `p` once the sprite rows before
/// `rows` and, in row `rows`, the columns before `cols` are drawn.
spec fn drawn_so_far(m: Machine, op: u16, p: int, rows: int, cols: int) -> bool {
    let offset = p - m.sprite_pixel_index(op, 0, 0);
    &&& 0 <= offset
    &&& offset % 64 < 8
    &&& offset / 64 < n_of(op)
    &&& (offset / 64 < rows || (offset / 64 == rows && offset % 64 < cols))
    &&& m.sprite_lit(op, offset / 64, offset % 64)
}

/// Pixel (`row`, `col`) of a sprite sits `row * 64 + col` after its first pixel.
pub(crate) proof fn lemma_pixel_offset(offset: int, row: int, col: int)
    requires
        0 <= row,
        0 <= col < 64,
    ensures
        (offset == row * 64 + col) <==> (0 <= offset && offset / 64 == row && offset % 64 == col),
{
    if offset == row * 64 + col {
        vstd::arithmetic::div_mod::lemma_fundamental_div_mod_converse(offset, 64, row, col);
    }
    if 0 <= offset && offset / 64 == row && offset % 64 == col {
        vstd::arithmetic::div_mod::lemma_fundamental_div_mod(offset, 64);
    }
}

impl Chip8 {
    /// `00E0`: clears the display, switching every pixel off.
    pub fn op_clear_display(&mut self)
        ensures
            final(self)@ == old(self)@.clear_display(),
    {
        self.display = [false; 2048];
        assert(self@ =~= old(self)@.clear_display());
    }

    /// `00EE`: returns from a subroutine, popping the latest return address
    /// into `pc`.
    pub fn op_return(&mut self)
        requires
            old(self)@.can_return(),
        ensures
            final(self)@ == old(self)@.ret(),
    {
        self.sp -= 1;
        self.pc = self.stack[self.sp as usize];
    }

    /// `1NNN`: jumps to `NNN`.
    pub fn op_jump(&mut self, instr: Instruction)
        ensures
            final(self)@ == old(self)@.jump(instr@),
    {
        self.pc = instr.nnn();
    }

    /// `2NNN`: calls the subroutine at `NNN`, pushing the return address
    /// (the current `pc`, the instruction after the call).
    pub fn op_call(&mut self, instr: Instruction)
        requires
            old(self)@.can_call(),
        ensures
            final(self)@ == old(self)@.call(instr@),
    {
        self.stack[self.sp as usize] = self.pc;
        self.sp += 1;
        self.pc = instr.nnn();
        assert(self@ =~= old(self)@.call(instr@));
    }

    /// `3XNN`: skips the next instruction when `VX == NN`.
    pub fn op_skip_eq_nn(&mut self, instr: Instruction)
        requires
            old(self)@.can_skip_if(old(self)@.vx(instr@) == nn_of(instr@)),
        ensures
            final(self)@ == old(self)@.skip_if(old(self)@.vx(instr@) == nn_of(instr@)),
    {
        let skip = self.v[instr.x()] == instr.nn();
        if skip {
            self.pc += 2;
        }
    }

    /// `4XNN`: skips the next instruction when `VX != NN`.
    pub fn op_skip_ne_nn(&mut self, instr: Instruction)
        requires
            old(self)@.can_skip_if(old(self)@.vx(instr@) != nn_of(instr@)),
        ensures
            final(self)@ == old(self)@.skip_if(old(self)@.vx(instr@) != nn_of(instr@)),
    {
        let skip = self.v[instr.x()] != instr.nn();
        if skip {
            self.pc += 2;
        }
    }

    /// `5XY0`: skips the next instruction when `VX == VY`.
    pub fn op_skip_eq_reg(&mut self, instr: Instruction)
        requires
            old(self)@.can_skip_if(old(self)@.vx(instr@) == old(self)@.vy(instr@)),
        ensures
            final(self)@ == old(self)@.skip_if(old(self)@.vx(instr@) == old(self)@.vy(instr@)),
    {
        let skip = self.v[instr.x()] == self.v[instr.y()];
        if skip {
            self.pc += 2;
        }
    }

    /// `6XNN`: `VX = NN`.
    pub fn op_set(&mut self, instr: Instruction)
        ensures
            final(self)@ == old(self)@.set_vx(instr@, nn_of(instr@)),
    {
        self.v[instr.x()] = instr.nn();
        assert(self@ =~= old(self)@.set_vx(instr@, nn_of(instr@)));
    }

    /// `7XNN`: `VX = VX + NN`, wrapping on overflow; `VF` is not touched.
    pub fn op_add(&mut self, instr: Instruction)
        ensures
            final(self)@ == old(self)@.add_imm(instr@),
    {
        let x = instr.x();
        self.v[x] = self.v[x].wrapping_add(instr.nn());
        assert(self@ =~= old(self)@.add_imm(instr@));
    }

    /// `8XY0`: `VX = VY`.
    pub fn op_set_reg(&mut self, instr: Instruction)
        ensures
            final(self)@ == old(self)@.set_vx(instr@, old(self)@.vy(instr@)),
    {
        self.v[instr.x()] = self.v[instr.y()];
        assert(self@ =~= old(self)@.set_vx(instr@, old(self)@.vy(instr@)));
    }

    /// `8XY1`: `VX = VX | VY`.
    pub fn op_or(&mut self, instr: Instruction)
        ensures
            final(self)@ == old(self)@.set_vx(instr@, old(self)@.vx(instr@) | old(self)@.vy(instr@)),
    {
        let x = instr.x();
        self.v[x] = self.v[x] | self.v[instr.y()];
        assert(self@ =~= old(self)@.set_vx(instr@, old(self)@.vx(instr@) | old(self)@.vy(instr@)));
    }

    /// `8XY2`: `VX = VX & VY`.
    pub fn op_and(&mut self, instr: Instruction)
        ensures
            final(self)@ == old(self)@.set_vx(instr@, old(self)@.vx(instr@) & old(self)@.vy(instr@)),
    {
        let x = instr.x();
        self.v[x] = self.v[x] & self.v[instr.y()];
        assert(self@ =~= old(self)@.set_vx(instr@, old(self)@.vx(instr@) & old(self)@.vy(instr@)));
    }

    /// `8XY3`: `VX = VX ^ VY`.
    pub fn op_xor(&mut self, instr: Instruction)
        ensures
            final(self)@ == old(self)@.set_vx(instr@, old(self)@.vx(instr@) ^ old(self)@.vy(instr@)),
    {
        let x = instr.x();
        self.v[x] = self.v[x] ^ self.v[instr.y()];
        assert(self@ =~= old(self)@.set_vx(instr@, old(self)@.vx(instr@) ^ old(self)@.vy(instr@)));
    }

    /// `8XY4`: `VX = VX + VY` wrapping, then `VF = 1` when the sum passed
    /// `0xFF`, else `0`.
    pub fn op_add_reg(&mut self, instr: Instruction)
        ensures
            final(self)@ == old(self)@.add_reg(instr@),
    {
        let x = instr.x();
        let y = instr.y();
        let overflow = (self.v[x] as u16) + (self.v[y] as u16) > 0xFF;
        self.v[x] = self.v[x].wrapping_add(self.v[y]);
        self.v[0xF] = overflow as u8;
        assert(self@ =~= old(self)@.add_reg(instr@));
    }

    /// `8XY5`: `VX = VX - VY` wrapping, then `VF = 1` when there was no borrow
    /// (`VX >= VY`), else `0`.
    pub fn op_sub_reg(&mut self, instr: Instruction)
        ensures
            final(self)@ == old(self)@.sub_reg(instr@),
    {
        let x = instr.x();
        let y = instr.y();
        let no_borrow = self.v[x] >= self.v[y];
        self.v[x] = self.v[x].wrapping_sub(self.v[y]);
        self.v[0xF] = no_borrow as u8;
        assert(self@ =~= old(self)@.sub_reg(instr@));
    }

    /// `8XY6`: `VX = VX >> 1`, then `VF` = the bit shifted out. `Y` is ignored.
    pub fn op_shift_right(&mut self, instr: Instruction)
        ensures
            final(self)@ == old(self)@.shift_right(instr@),
    {
        let x = instr.x();
        let value = self.v[x];
        let lsb = value & 1;
        self.v[x] = value >> 1;
        self.v[0xF] = lsb;
        assert(value & 1 == value % 2 && value >> 1 == value / 2) by (bit_vector);
        assert(self@ =~= old(self)@.shift_right(instr@));
    }

    /// `8XY7`: `VX = VY - VX` wrapping, then `VF = 1` when there was no borrow
    /// (`VY >= VX`), else `0`.
    pub fn op_sub_reverse(&mut self, instr: Instruction)
        ensures
            final(self)@ == old(self)@.sub_reverse(instr@),
    {
        let x = instr.x();
        let y = instr.y();
        let no_borrow = self.v[y] >= self.v[x];
        self.v[x] = self.v[y].wrapping_sub(self.v[x]);
        self.v[0xF] = no_borrow as u8;
        assert(self@ =~= old(self)@.sub_reverse(instr@));
    }

    /// `8XYE`: `VX = VX << 1`, then `VF` = the bit shifted out. `Y` is ignored.
    pub fn op_shift_left(&mut self, instr: Instruction)
        ensures
            final(self)@ == old(self)@.shift_left(instr@),
    {
        let x = instr.x();
        let value = self.v[x];
        let msb = value >> 7;
        self.v[x] = value << 1;
        self.v[0xF] = msb;
        assert(value >> 7 == value / 128 && value << 1 == (value * 2) % 256) by (bit_vector);
        assert(self@ =~= old(self)@.shift_left(instr@));
    }

    /// `9XY0`: skips the next instruction when `VX != VY`.
    pub fn op_skip_ne_reg(&mut self, instr: Instruction)
        requires
            old(self)@.can_skip_if(old(self)@.vx(instr@) != old(self)@.vy(instr@)),
        ensures
            final(self)@ == old(self)@.skip_if(old(self)@.vx(instr@) != old(self)@.vy(instr@)),
    {
        let skip = self.v[instr.x()] != self.v[instr.y()];
        if skip {
            self.pc += 2;
        }
    }

    /// `ANNN`: `I = NNN`.
    pub fn op_set_index(&mut self, instr: Instruction)
        ensures
            final(self)@ == old(self)@.set_index(instr@),
    {
        self.i = instr.nnn();
    }

    /// `BNNN`: jumps to `NNN + V0`.
    pub fn op_jump_add_v0(&mut self, instr: Instruction)
        ensures
            final(self)@ == old(self)@.jump_add_v0(instr@),
    {
        self.pc = instr.nnn() + (self.v[0x0] as u16);
    }

    /// `CXNN` with a given random byte: `VX = random & NN`.
    pub fn op_rand_and(&mut self, instr: Instruction, random: u8)
        ensures
            final(self)@ == old(self)@.rand_and(instr@, random),
    {
        self.v[instr.x()] = random & instr.nn();
        assert(self@ =~= old(self)@.rand_and(instr@, random));
    }

    /// `CXNN`: `VX` = a random byte `& NN`. The byte is the low byte of a
    /// `u32` drawn from the operating system's random source, so only its
    /// masking is known here. When the source fails, nothing changes and the
    /// failure is returned.
    pub fn op_add_rand(&mut self, instr: Instruction) -> (r: Result<(), RandomSourceError>)
        ensures
            r is Ok ==> exists|random: u8| final(self)@ == old(self)@.rand_and(instr@, random),
            r is Err ==> final(self)@ == old(self)@,
    {
        match system_random_u32() {
            Ok(word) => {
                let random = (word % 256) as u8;
                self.op_rand_and(instr, random);
                Ok(())
            },
            Err(_) => Err(RandomSourceError::SourceFailed),
        }
    }

    /// `EX9E`: skips the next instruction when the key numbered `VX` is down.
    pub fn op_skip_keypress(&mut self, instr: Instruction)
        requires
            old(self)@.can_skip_key(instr@, true),
        ensures
            final(self)@ == old(self)@.skip_if(old(self)@.keypad[old(self)@.vx(instr@) as int]),
    {
        let skip = self.keypad[self.v[instr.x()] as usize];
        if skip {
            self.pc += 2;
        }
    }

    /// `EXA1`: skips the next instruction when the key numbered `VX` is up.
    pub fn op_skip_nokeypress(&mut self, instr: Instruction)
        requires
            old(self)@.can_skip_key(instr@, false),
        ensures
            final(self)@ == old(self)@.skip_if(!old(self)@.keypad[old(self)@.vx(instr@) as int]),
    {
        let skip = !self.keypad[self.v[instr.x()] as usize];
        if skip {
            self.pc += 2;
        }
    }

    /// `FX07`: `VX` = the delay timer.
    pub fn op_save_dt(&mut self, instr: Instruction)
        ensures
            final(self)@ == old(self)@.save_delay_timer(instr@),
    {
        self.v[instr.x()] = self.delay_timer;
        assert(self@ =~= old(self)@.save_delay_timer(instr@));
    }

    /// `FX0A`: stores the number of the first key held down into `VX`; with
    /// no key down, steps `pc` back so the next cycle runs this instruction
    /// again.
    pub fn op_wait_key(&mut self, instr: Instruction)
        requires
            old(self)@.can_wait_key(),
        ensures
            final(self)@ == old(self)@.wait_key(instr@),
    {
        let ghost m0 = self@;
        let x = instr.x();
        let mut key_pressed = false;
        let mut keypad_idx: usize = 0;
        while keypad_idx < 16
            invariant_except_break
                !key_pressed,
                self@ == m0,
                forall|j: int| 0 <= j < keypad_idx ==> !m0.keypad[j],
            invariant
                0 <= keypad_idx <= 16,
                x == x_of(instr@),
                x < 16,
            ensures
                key_pressed ==> keypad_idx < 16 && m0.keypad[keypad_idx as int] && self@
                    == m0.set_vx(instr@, keypad_idx as u8) && forall|j: int|
                    0 <= j < keypad_idx ==> !m0.keypad[j],
                !key_pressed ==> self@ == m0 && forall|j: int| 0 <= j < 16 ==> !m0.keypad[j],
            decreases 16 - keypad_idx,
        {
            if self.keypad[keypad_idx] {
                self.v[x] = keypad_idx as u8;
                key_pressed = true;
                assert(self@ =~= m0.set_vx(instr@, keypad_idx as u8));
                break;
            }
            keypad_idx += 1;
        }
        if key_pressed {
            let ghost k = keypad_idx as int;
            assert(exists|k: int| 0 <= k < 16 && m0.keypad[k]);
            let ghost c = choose|k: int|
                0 <= k < 16 && m0.keypad[k] && forall|j: int| 0 <= j < k ==> !m0.keypad[j];
            assert(0 <= k < 16 && m0.keypad[k] && forall|j: int| 0 <= j < k ==> !m0.keypad[j]);
            assert(c == k) by {
                if c < k {
                    assert(!m0.keypad[c]);
                }
                if k < c {
                    assert(!m0.keypad[k]);
                }
            }
        } else {
            self.pc -= 2;
        }
    }

    /// `FX15`: the delay timer = `VX`.
    pub fn op_load_dt(&mut self, instr: Instruction)
        ensures
            final(self)@ == old(self)@.load_delay_timer(instr@),
    {
        self.delay_timer = self.v[instr.x()];
    }

    /// `FX18`: the sound timer = `VX`.
    pub fn op_load_st(&mut self, instr: Instruction)
        ensures
            final(self)@ == old(self)@.load_sound_timer(instr@),
    {
        self.sound_timer = self.v[instr.x()];
    }

    /// `FX1E`: `I = I + VX`.
    pub fn op_add_index(&mut self, instr: Instruction)
        requires
            old(self)@.can_add_index(instr@),
        ensures
            final(self)@ == old(self)@.add_index(instr@),
    {
        self.i = self.i + (self.v[instr.x()] as u16);
    }

    /// `FX29`: points `I` at the font sprite of the hex digit `VX`: the font
    /// starts at `0x50` and each digit is 5 bytes tall.
    pub fn op_digit_location(&mut self, instr: Instruction)
        requires
            old(self)@.can_digit_location(instr@),
        ensures
            final(self)@ == old(self)@.digit_location(instr@),
    {
        let digit = self.v[instr.x()];
        let font_offset = (digit * 0x5) as u16;
        let font_base_address = 0x50;
        self.i = font_base_address + font_offset;
    }

    /// `FX33`: stores the hundreds, tens and ones digits of `VX` at `I`,
    /// `I + 1` and `I + 2`.
    pub fn op_break_decimal(&mut self, instr: Instruction)
        requires
            old(self)@.can_break_decimal(),
        ensures
            final(self)@ == old(self)@.break_decimal(instr@),
    {
        let decimal = self.v[instr.x()];
        let ones_place = decimal % 10;
        let tens_place = (decimal / 10) % 10;
        let hundreds_place = (decimal / 10) / 10;
        self.memory[(self.i) as usize] = hundreds_place;
        self.memory[(self.i + 1) as usize] = tens_place;
        self.memory[(self.i + 2) as usize] = ones_place;
        assert(self@ =~= old(self)@.break_decimal(instr@));
    }

    /// `FX55`: stores `V0` through `VX` into memory from `I` on.
    pub fn op_save_mem(&mut self, instr: Instruction)
        requires
            old(self)@.can_transfer_registers(instr@),
        ensures
            final(self)@ == old(self)@.save_registers(instr@),
    {
        let ghost m0 = self@;
        let x = instr.x();
        for reg in 0..x + 1
            invariant
                x == x_of(instr@),
                m0.can_transfer_registers(instr@),
                self@ == (Machine { memory: self@.memory, ..m0 }),
                forall|a: int|
                    0 <= a < 4096 ==> #[trigger] self@.memory[a] == if m0.i <= a < m0.i + reg {
                        m0.v[a - m0.i]
                    } else {
                        m0.memory[a]
                    },
        {
            self.memory[(self.i as usize) + reg] = self.v[reg];
        }
        assert(self@ =~= m0.save_registers(instr@));
    }

    /// `FX65`: loads `V0` through `VX` from memory from `I` on.
    pub fn op_load_mem(&mut self, instr: Instruction)
        requires
            old(self)@.can_transfer_registers(instr@),
        ensures
            final(self)@ == old(self)@.load_registers(instr@),
    {
        let ghost m0 = self@;
        let x = instr.x();
        for reg in 0..x + 1
            invariant
                x == x_of(instr@),
                m0.can_transfer_registers(instr@),
                self@ == (Machine { v: self@.v, ..m0 }),
                forall|r: int|
                    0 <= r < 16 ==> #[trigger] self@.v[r] == if r < reg {
                        m0.memory[m0.i + r]
                    } else {
                        m0.v[r]
                    },
        {
            self.v[reg] = self.memory[(self.i as usize) + reg];
        }
        assert(self@ =~= m0.load_registers(instr@));
    }

    /// `DXYN`: draws the `N`-row sprite stored at `I` with its top-left corner
    /// at (`VX % 64`, `VY % 32`). Each set bit of a row byte switches one pixel
    /// on, most significant bit leftmost; pixels already on stay on. `VF` is
    /// cleared.
    pub fn op_display_sprite(&mut self, instr: Instruction)
        requires
            old(self)@.can_draw(instr@),
        ensures
            final(self)@ == old(self)@.draw(instr@),
    {
        let ghost m0 = self@;
        let ghost op = instr@;
        let n = instr.n();
        let x = instr.x();
        let y = instr.y();
        let mut sprite: Vec<u8> = Vec::new();
        for offset in 0..n
            invariant
                self@ == m0,
                n == n_of(op),
                n == 0 || m0.i + n <= 4096,
                sprite@.len() == offset,
                forall|k: int| 0 <= k < offset ==> sprite@[k] == m0.memory[m0.i + k],
        {
            sprite.push(self.memory[(self.i + (offset as u16)) as usize]);
        }
        let initial_x_coord = self.v[x] % 64;
        let initial_y_coord = self.v[y] % 32;
        self.v[15] = 0x0;
        let mut row: usize = 0;
        while row < sprite.len()
            invariant
                0 <= row <= sprite@.len(),
                sprite@.len() == n_of(op),
                forall|k: int| 0 <= k < n_of(op) ==> sprite@[k] == m0.memory[m0.i + k],
                m0.can_draw(op),
                m0.display.len() == 2048,
                initial_x_coord == m0.sprite_x0(op),
                initial_y_coord == m0.sprite_y0(op),
                self@ == (Machine { v: m0.v.update(15, 0), display: self@.display, ..m0 }),
                forall|p: int|
                    0 <= p < 2048 ==> #[trigger] self.display@[p] == (m0.display[p]
                        || drawn_so_far(m0, op, p, row as int, 0)),
            decreases sprite@.len() - row,
        {
            let byte = sprite[row];
            let mut col: usize = 0;
            while col < 8
                invariant
                    0 <= row < sprite@.len(),
                    0 <= col <= 8,
                    sprite@.len() == n_of(op),
                    byte == m0.memory[m0.i + row],
                    m0.can_draw(op),
                    m0.display.len() == 2048,
                    initial_x_coord == m0.sprite_x0(op),
                    initial_y_coord == m0.sprite_y0(op),
                    self@ == (Machine { v: m0.v.update(15, 0), display: self@.display, ..m0 }),
                    forall|p: int|
                        0 <= p < 2048 ==> #[trigger] self.display@[p] == (m0.display[p]
                            || drawn_so_far(m0, op, p, row as int, col as int)),
                decreases 8 - col,
            {
                let pixel_on = byte >> ((7 - col) as u8) & 1;
                let ghost lit = m0.sprite_lit(op, row as int, col as int);
                assert(lit == (pixel_on == 1));
                let ghost before = self.display@;
                if pixel_on == 1 {
                    let x_coord = (initial_x_coord as usize) + col;
                    let y_coord = (initial_y_coord as usize) + row;
                    let display_index = (y_coord * 64) + x_coord;
                    assert(display_index == m0.sprite_pixel_index(op, row as int, col as int));
                    self.display[display_index] = true;
                }
                assert forall|p: int| 0 <= p < 2048 implies #[trigger] self.display@[p] == (
                m0.display[p] || drawn_so_far(m0, op, p, row as int, col + 1)) by {
                    let offset = p - m0.sprite_pixel_index(op, 0, 0);
                    lemma_pixel_offset(offset, row as int, col as int);
                }
                col += 1;
            }
            assert forall|p: int| 0 <= p < 2048 implies #[trigger] self.display@[p] == (
            m0.display[p] || drawn_so_far(m0, op, p, row + 1, 0)) by {
                assert(drawn_so_far(m0, op, p, row as int, 8) == drawn_so_far(
                    m0,
                    op,
                    p,
                    row + 1,
                    0,
                ));
            }
            row += 1;
        }
        assert(self@.display =~= m0.draw(op).display);
        assert(self@ =~= m0.draw(op));
    }
}

} // verus!
