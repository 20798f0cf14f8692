//! The CHIP-8 machine state and its fetch / decode / execute cycle.
use vstd::prelude::*;
use crate::machine::{
    Machine, family_of, x_of, y_of, n_of, nn_of, nnn_of, font_bytes, initial_machine,
};

verus! {

/// A CHIP-8 virtual machine.
pub struct Chip8 {
    /// 4096 bytes of RAM.
    pub memory: [u8; 4096],
    /// General registers `V0`..`VF`.
    pub v: [u8; 16],
    /// Index register, holds addresses.
    pub i: u16,
    /// Program counter, address of the next instruction.
    pub pc: u16,
    /// Return addresses of pending subroutine calls.
    pub stack: [u16; 16],
    /// Number of return addresses on the stack (next free slot).
    pub sp: u8,
    pub delay_timer: u8,
    pub sound_timer: u8,
    /// 64 x 32 pixels, row by row; `true` is lit.
    pub display: [bool; 2048],
    /// The 16 keys, `true` when held down.
    pub keypad: [bool; 16],
}

impl View for Chip8 {
    type V = Machine;

    open spec fn view(&self) -> Machine {
        Machine {
            memory: self.memory@,
            v: self.v@,
            i: self.i,
            pc: self.pc,
            stack: self.stack@,
            sp: self.sp,
            delay_timer: self.delay_timer,
            sound_timer: self.sound_timer,
            display: self.display@,
            keypad: self.keypad@,
        }
    }
}

/// An opcode taken apart into its fields.
///
/// An `Instruction` is only made by [`Chip8::decode`], so its fields always
/// agree with its opcode, and its register numbers are below 16.
pub struct Instruction {
    opcode: u16,
    instruction_family: u16,
    x: usize,
    y: usize,
    n: u8,
    nn: u8,
    nnn: u16,
}

impl View for Instruction {
    type V = u16;

    closed spec fn view(&self) -> u16 {
        self.opcode
    }
}

impl Instruction {
    #[verifier::type_invariant]
    closed spec fn fields_agree(self) -> bool {
        &&& self.instruction_family == family_of(self.opcode)
        &&& self.x == x_of(self.opcode)
        &&& self.y == y_of(self.opcode)
        &&& self.n == n_of(self.opcode)
        &&& self.nn == nn_of(self.opcode)
        &&& self.nnn == nnn_of(self.opcode)
    }

    /// The raw opcode.
    pub fn opcode(&self) -> (r: u16)
        ensures
            r == self@,
    {
        self.opcode
    }

    /// The top nibble, selecting the instruction family.
    pub fn family(&self) -> (r: u16)
        ensures
            r == family_of(self@),
            r < 16,
    {
        proof {
            use_type_invariant(self);
        }
        self.instruction_family
    }

    /// The first register number.
    pub fn x(&self) -> (r: usize)
        ensures
            r == x_of(self@),
            r < 16,
    {
        proof {
            use_type_invariant(self);
        }
        self.x
    }

    /// The second register number.
    pub fn y(&self) -> (r: usize)
        ensures
            r == y_of(self@),
            r < 16,
    {
        proof {
            use_type_invariant(self);
        }
        self.y
    }

    /// The lowest nibble.
    pub fn n(&self) -> (r: u8)
        ensures
            r == n_of(self@),
            r < 16,
    {
        proof {
            use_type_invariant(self);
        }
        self.n
    }

    /// The lowest byte.
    pub fn nn(&self) -> (r: u8)
        ensures
            r == nn_of(self@),
    {
        proof {
            use_type_invariant(self);
        }
        self.nn
    }

    /// The twelve-bit address.
    pub fn nnn(&self) -> (r: u16)
        ensures
            r == nnn_of(self@),
            r < 0x1000,
    {
        proof {
            use_type_invariant(self);
        }
        self.nnn
    }
}

/// Why a ROM cannot be loaded.
#[derive(Debug, Clone, Copy, PartialEq, Eq)]
pub enum LoadError {
    /// The ROM does not fit between `0x200` and the end of memory.
    RomTooLarge,
}

/// The operating system's random source failed while `CXNN` drew its byte.
#[derive(Debug, Clone, Copy, PartialEq, Eq)]
pub enum RandomSourceError {
    SourceFailed,
}

/// The built-in font, as stored from `0x50`.
fn font_set() -> (r: [u8; 80])
    ensures
        r@ == font_bytes(),
{
    let f: [u8; 80] = [
        0xF0, 0x90, 0x90, 0x90, 0xF0,
        0x20, 0x60, 0x20, 0x20, 0x70,
        0xF0, 0x10, 0xF0, 0x80, 0xF0,
        0xF0, 0x10, 0xF0, 0x10, 0xF0,
        0x90, 0x90, 0xF0, 0x10, 0x10,
        0xF0, 0x80, 0xF0, 0x10, 0xF0,
        0xF0, 0x80, 0xF0, 0x90, 0xF0,
        0xF0, 0x10, 0x20, 0x40, 0x40,
        0xF0, 0x90, 0xF0, 0x90, 0xF0,
        0xF0, 0x90, 0xF0, 0x10, 0xF0,
        0xF0, 0x90, 0xF0, 0x90, 0x90,
        0xE0, 0x90, 0xE0, 0x90, 0xE0,
        0xF0, 0x80, 0x80, 0x80, 0xF0,
        0xE0, 0x90, 0x90, 0x90, 0xE0,
        0xF0, 0x80, 0xF0, 0x80, 0xF0,
        0xF0, 0x80, 0xF0, 0x80, 0x80,
    ];
    assert(f@ =~= font_bytes());
    f
}

impl Chip8 {
    /// Every machine state has the sizes that its arrays fix.
    pub proof fn lemma_view_well_sized(&self)
        ensures
            self@.well_sized(),
    {
    }

    /// Builds a machine with cleared memory and registers, the font stored
    /// from `0x50`, and `pc` at the start of program space, `0x200`.
    pub fn new() -> (chip8: Self)
        ensures
            chip8@ == initial_machine(),
    {
        let mut chip8 = Chip8 {
            memory: [0; 4096],
            v: [0; 16],
            i: 0,
            pc: 0x200,
            stack: [0; 16],
            sp: 0,
            delay_timer: 0,
            sound_timer: 0,
            display: [false; 2048],
            keypad: [false; 16],
        };
        let font = font_set();
        for offset in 0..80
            invariant
                font@ == font_bytes(),
                forall|a: int|
                    0 <= a < 4096 ==> #[trigger] chip8.memory@[a] == if 0x50 <= a < 0x50
                        + offset {
                        font_bytes()[a - 0x50]
                    } else {
                        0u8
                    },
                chip8.v@ == Seq::new(16, |r: int| 0u8),
                chip8.stack@ == Seq::new(16, |k: int| 0u16),
                chip8.display@ == Seq::new(2048, |p: int| false),
                chip8.keypad@ == Seq::new(16, |k: int| false),
                chip8.i == 0,
                chip8.pc == 0x200,
                chip8.sp == 0,
                chip8.delay_timer == 0,
                chip8.sound_timer == 0,
        {
            chip8.memory[0x50 + offset] = font[offset];
        }
        assert(chip8@ =~= initial_machine());
        chip8
    }

    /// Copies the bytes of a ROM image into memory from `0x200`, where
    /// execution starts. A ROM larger than the `0xE00` bytes from `0x200` to
    /// the end of memory is refused and nothing changes.
    pub fn load_rom_bytes(&mut self, rom: &[u8]) -> (r: Result<(), LoadError>)
        ensures
            rom@.len() <= 0xE00 ==> r is Ok && final(self)@ == old(self)@.with_program(rom@),
            rom@.len() > 0xE00 ==> r == Err::<(), LoadError>(LoadError::RomTooLarge)
                && final(self)@ == old(self)@,
    {
        if rom.len() > 0xE00 {
            return Err(LoadError::RomTooLarge);
        }
        let ghost m0 = self@;
        for k in 0..rom.len()
            invariant
                rom@.len() <= 0xE00,
                self@ == (Machine { memory: self@.memory, ..m0 }),
                forall|a: int|
                    0 <= a < 4096 ==> #[trigger] self@.memory[a] == if 0x200 <= a < 0x200 + k {
                        rom@[a - 0x200]
                    } else {
                        m0.memory[a]
                    },
        {
            self.memory[0x200 + k] = rom[k];
        }
        assert(self@ =~= m0.with_program(rom@));
        Ok(())
    }

    /// Reads the big-endian opcode at `pc` and moves `pc` to the next
    /// instruction.
    pub fn fetch(&mut self) -> (opcode: u16)
        requires
            old(self)@.can_fetch(),
        ensures
            opcode == old(self)@.opcode_at_pc(),
            final(self)@ == old(self)@.fetched(),
    {
        let high_byte = self.memory[self.pc as usize] as u16;
        let low_byte = self.memory[(self.pc + 1) as usize] as u16;
        let mut opcode = high_byte << 8;
        opcode = opcode | low_byte;
        assert(opcode == high_byte * 0x100 + low_byte) by (bit_vector)
            requires
                high_byte < 0x100,
                low_byte < 0x100,
                opcode == (high_byte << 8) | low_byte,
        ;
        self.pc += 2;
        opcode
    }

    /// Takes `opcode` apart into its instruction family, register numbers
    /// and constants.
    pub fn decode(&self, opcode: u16) -> (instr: Instruction)
        ensures
            instr@ == opcode,
    {
        assert(((opcode & 0xF000) >> 12) == opcode / 0x1000) by (bit_vector);
        assert(((opcode & 0x0F00) >> 8) == (opcode / 0x100) % 0x10) by (bit_vector);
        assert(((opcode & 0x00F0) >> 4) == (opcode / 0x10) % 0x10) by (bit_vector);
        assert((opcode & 0x000F) == opcode % 0x10) by (bit_vector);
        assert((opcode & 0x00FF) == opcode % 0x100) by (bit_vector);
        assert((opcode & 0x0FFF) == opcode % 0x1000) by (bit_vector);
        Instruction {
            opcode,
            instruction_family: (opcode & 0xF000) >> 12,
            x: ((opcode & 0x0F00) >> 8) as usize,
            y: ((opcode & 0x00F0) >> 4) as usize,
            n: (opcode & 0x000F) as u8,
            nn: (opcode & 0x00FF) as u8,
            nnn: opcode & 0x0FFF,
        }
    }

    /// Executes `instr`, with `random` as the byte that `CXNN` draws.
    /// Unrecognised opcodes leave the machine unchanged.
    pub fn execute_with_random(&mut self, instr: Instruction, random: u8)
        requires
            old(self)@.can_execute(instr@),
        ensures
            final(self)@ == old(self)@.execute(instr@, random),
    {
        let opcode = instr.opcode();
        let family = instr.family();
        let n = instr.n();
        let nn = instr.nn();
        match family {
            0x0 => {
                if opcode == 0x00E0 {
                    self.op_clear_display();
                } else if opcode == 0x00EE {
                    self.op_return();
                }
            },
            0x1 => self.op_jump(instr),
            0x2 => self.op_call(instr),
            0x3 => self.op_skip_eq_nn(instr),
            0x4 => self.op_skip_ne_nn(instr),
            0x5 => {
                if n == 0 {
                    self.op_skip_eq_reg(instr);
                }
            },
            0x6 => self.op_set(instr),
            0x7 => self.op_add(instr),
            0x8 => {
                if n == 0x0 {
                    self.op_set_reg(instr);
                } else if n == 0x1 {
                    self.op_or(instr);
                } else if n == 0x2 {
                    self.op_and(instr);
                } else if n == 0x3 {
                    self.op_xor(instr);
                } else if n == 0x4 {
                    self.op_add_reg(instr);
                } else if n == 0x5 {
                    self.op_sub_reg(instr);
                } else if n == 0x6 {
                    self.op_shift_right(instr);
                } else if n == 0x7 {
                    self.op_sub_reverse(instr);
                } else if n == 0xE {
                    self.op_shift_left(instr);
                }
            },
            0x9 => {
                if n == 0 {
                    self.op_skip_ne_reg(instr);
                }
            },
            0xA => self.op_set_index(instr),
            0xB => self.op_jump_add_v0(instr),
            0xC => self.op_rand_and(instr, random),
            0xD => self.op_display_sprite(instr),
            0xE => {
                if nn == 0x9E {
                    self.op_skip_keypress(instr);
                } else if nn == 0xA1 {
                    self.op_skip_nokeypress(instr);
                }
            },
            _ => {
                if nn == 0x07 {
                    self.op_save_dt(instr);
                } else if nn == 0x0A {
                    self.op_wait_key(instr);
                } else if nn == 0x15 {
                    self.op_load_dt(instr);
                } else if nn == 0x18 {
                    self.op_load_st(instr);
                } else if nn == 0x1E {
                    self.op_add_index(instr);
                } else if nn == 0x29 {
                    self.op_digit_location(instr);
                } else if nn == 0x33 {
                    self.op_break_decimal(instr);
                } else if nn == 0x55 {
                    self.op_save_mem(instr);
                } else if nn == 0x65 {
                    self.op_load_mem(instr);
                }
            },
        }
    }

    /// Executes `instr`: matches its family (and, where families share a top
    /// nibble, its low nibble or byte) to the instruction and applies it.
    /// Unrecognised opcodes leave the machine unchanged. `CXNN` draws its
    /// byte from the operating system's random source; if that source fails,
    /// the machine is left unchanged and the failure is returned.
    pub fn execute(&mut self, instr: Instruction) -> (r: Result<(), RandomSourceError>)
        requires
            old(self)@.can_execute(instr@),
        ensures
            r is Ok ==> exists|random: u8| final(self)@ == old(self)@.execute(instr@, random),
            r is Err ==> family_of(instr@) == 0xC && final(self)@ == old(self)@,
            family_of(instr@) != 0xC ==> r is Ok && final(self)@ == old(self)@.execute(instr@, 0),
    {
        let ghost m0 = self@;
        let ghost op = instr@;
        if instr.family() == 0xC {
            let r = self.op_add_rand(instr);
            if r.is_ok() {
                let ghost rnd = choose|rnd: u8| self@ == m0.rand_and(op, rnd);
                assert(self@ == m0.execute(op, rnd));
            }
            r
        } else {
            self.execute_with_random(instr, 0);
            assert(self@ == m0.execute(op, 0u8));
            Ok(())
        }
    }

    /// Whether drawing the `DXYN` sprite stays within memory and the display.
    fn sprite_fits(&self, instr: &Instruction) -> (ok: bool)
        ensures
            ok == self@.can_draw(instr@),
    {
        let n = instr.n() as usize;
        if n != 0 && (self.i as usize) + n > 4096 {
            return false;
        }
        let x0 = (self.v[instr.x()] % 64) as usize;
        let y0 = (self.v[instr.y()] % 32) as usize;
        let ghost m = self@;
        let ghost op = instr@;
        for row in 0..n
            invariant
                n == n_of(op),
                n == 0 || m.i + n <= 4096,
                m == self@,
                op == instr@,
                x0 == m.sprite_x0(op),
                y0 == m.sprite_y0(op),
                forall|r: int, c: int|
                    0 <= r < row && 0 <= c < 8 && #[trigger] m.sprite_lit(op, r, c)
                        ==> m.sprite_pixel_index(op, r, c) < 2048,
        {
            let byte = self.memory[(self.i as usize) + row];
            for col in 0..8usize
                invariant
                    0 <= row < n,
                    n == n_of(op),
                    n == 0 || m.i + n <= 4096,
                    m == self@,
                    op == instr@,
                    byte == m.memory[m.i + row],
                    x0 == m.sprite_x0(op),
                    y0 == m.sprite_y0(op),
                    forall|r: int, c: int|
                        0 <= r < row && 0 <= c < 8 && #[trigger] m.sprite_lit(op, r, c)
                            ==> m.sprite_pixel_index(op, r, c) < 2048,
                    forall|c: int|
                        0 <= c < col && #[trigger] m.sprite_lit(op, row as int, c)
                            ==> m.sprite_pixel_index(op, row as int, c) < 2048,
            {
                let ghost lit = m.sprite_lit(op, row as int, col as int);
                let pixel_on = byte >> ((7 - col) as u8) & 1;
                assert(lit == (pixel_on == 1));
                if pixel_on == 1 && (y0 + row) * 64 + x0 + col >= 2048 {
                    assert(m.sprite_lit(op, row as int, col as int));
                    return false;
                }
            }
        }
        true
    }

    /// Whether executing `instr` stays within memory, stack, display, keypad
    /// and the address range, so that [`Chip8::execute`] may be called.
    pub fn can_execute(&self, instr: &Instruction) -> (ok: bool)
        ensures
            ok == self@.can_execute(instr@),
    {
        let opcode = instr.opcode();
        let family = instr.family();
        let n = instr.n();
        let nn = instr.nn();
        let vx = self.v[instr.x()];
        let vy = self.v[instr.y()];
        let room_to_skip = self.pc <= u16::MAX - 2;
        match family {
            0x0 => opcode != 0x00EE || (1 <= self.sp && self.sp <= 16),
            0x2 => self.sp < 16,
            0x3 => vx != nn || room_to_skip,
            0x4 => vx == nn || room_to_skip,
            0x5 => n != 0 || vx != vy || room_to_skip,
            0x9 => n != 0 || vx == vy || room_to_skip,
            0xD => self.sprite_fits(instr),
            0xE => {
                if nn == 0x9E || nn == 0xA1 {
                    if vx >= 16 {
                        false
                    } else {
                        let skip = self.keypad[vx as usize] == (nn == 0x9E);
                        !skip || room_to_skip
                    }
                } else {
                    true
                }
            },
            0xF => {
                if nn == 0x0A {
                    let mut any_key = false;
                    for k in 0..16usize
                        invariant
                            any_key == exists|j: int| 0 <= j < k && self.keypad@[j],
                    {
                        if self.keypad[k] {
                            any_key = true;
                        }
                    }
                    proof {
                        if !any_key {
                            assert(self@.first_pressed_key() is None);
                        } else {
                            let j = choose|j: int| 0 <= j < 16 && self.keypad@[j];
                            assert(0 <= j < 16 && self@.keypad[j]);
                        }
                    }
                    any_key || self.pc >= 2
                } else if nn == 0x1E {
                    (self.i as u32) + (vx as u32) <= 0xFFFF
                } else if nn == 0x29 {
                    vx <= 51
                } else if nn == 0x33 {
                    (self.i as u32) + 2 < 4096
                } else if nn == 0x55 || nn == 0x65 {
                    (self.i as usize) + instr.x() < 4096
                } else {
                    true
                }
            },
            _ => true,
        }
    }

    /// Whether one [`Chip8::cycle`] can run: the opcode at `pc` lies in
    /// memory and can be executed once fetched.
    pub fn can_cycle(&self) -> (ok: bool)
        ensures
            ok == self@.can_cycle(),
    {
        if (self.pc as usize) + 1 >= 4096 {
            return false;
        }
        let high_byte = self.memory[self.pc as usize] as u16;
        let low_byte = self.memory[(self.pc + 1) as usize] as u16;
        let opcode = (high_byte << 8) | low_byte;
        assert(opcode == high_byte * 0x100 + low_byte) by (bit_vector)
            requires
                high_byte < 0x100,
                low_byte < 0x100,
                opcode == (high_byte << 8) | low_byte,
        ;
        let next = Chip8 { pc: self.pc + 2, ..*self };
        let instr = next.decode(opcode);
        assert(next@ == self@.fetched());
        next.can_execute(&instr)
    }

    /// One machine cycle: fetch the opcode at `pc`, decode it, execute it.
    /// If a `CXNN` cannot draw its byte because the operating system's random
    /// source fails, the failure is returned with `pc` already past the
    /// instruction and nothing else changed.
    pub fn cycle(&mut self) -> (r: Result<(), RandomSourceError>)
        requires
            old(self)@.can_cycle(),
        ensures
            r is Ok ==> exists|random: u8| final(self)@ == old(self)@.cycle(random),
            r is Err ==> family_of(old(self)@.opcode_at_pc()) == 0xC && final(self)@ == old(
                self,
            )@.fetched(),
            family_of(old(self)@.opcode_at_pc()) != 0xC ==> r is Ok && final(self)@ == old(
                self,
            )@.cycle(0),
    {
        let ghost m0 = self@;
        let opcode = self.fetch();
        let instr = self.decode(opcode);
        let r = self.execute(instr);
        if r.is_ok() {
            let ghost rnd = choose|rnd: u8| self@ == m0.fetched().execute(opcode, rnd);
            assert(self@ == m0.cycle(rnd));
        }
        r
    }
}

} // verus!
