//! The mathematical model of a CHIP-8 machine and of each instruction.
//!
//! Every executable operation of [`crate::cpu::Chip8`] is specified as a
//! transition of [`Machine`], the view of the executable state.
use vstd::prelude::*;

verus! {

/// Number of bytes of addressable memory.
pub const MEMORY_SIZE: usize = 4096;

/// Number of general purpose registers `V0`..`VF`.
pub const NUM_REGISTERS: usize = 16;

/// Depth of the return-address stack.
pub const STACK_DEPTH: usize = 16;

/// Number of pixels of the 64 x 32 display.
pub const DISPLAY_SIZE: usize = 2048;

/// Number of keys of the hexadecimal keypad.
pub const NUM_KEYS: usize = 16;

/// Address where programs are loaded and execution starts.
pub const PROGRAM_START: u16 = 0x200;

/// Address where the built-in hexadecimal font is stored.
pub const FONT_START: u16 = 0x50;

/// Index of the flag register `VF`.
pub const FLAG_REGISTER: usize = 15;

/// The abstract state of a CHIP-8 machine.
#[verifier::ext_equal]
pub struct Machine {
    pub memory: Seq<u8>,
    pub v: Seq<u8>,
    pub i: u16,
    pub pc: u16,
    pub stack: Seq<u16>,
    pub sp: u8,
    pub delay_timer: u8,
    pub sound_timer: u8,
    pub display: Seq<bool>,
    pub keypad: Seq<bool>,
}

// ---------------------------------------------------------------------------
// Fields of an opcode `0xWXYZ`
// ---------------------------------------------------------------------------
/// The top nibble `W`, selecting the instruction family.
pub open spec fn family_of(op: u16) -> u16 {
    op / 0x1000
}

/// The second nibble `X`, usually the first register.
pub open spec fn x_of(op: u16) -> u16 {
    (op / 0x100) % 0x10
}

/// The third nibble `Y`, usually the second register.
pub open spec fn y_of(op: u16) -> u16 {
    (op / 0x10) % 0x10
}

/// The lowest nibble `N`.
pub open spec fn n_of(op: u16) -> u8 {
    (op % 0x10) as u8
}

/// The lowest byte `NN`.
pub open spec fn nn_of(op: u16) -> u8 {
    (op % 0x100) as u8
}

/// The lowest twelve bits `NNN`, an address.
pub open spec fn nnn_of(op: u16) -> u16 {
    op % 0x1000
}

/// The 80 bytes of the built-in font: five rows for each hex digit `0`..`F`.
pub open spec fn font_bytes() -> Seq<u8> {
    seq![
        0xF0u8, 0x90, 0x90, 0x90, 0xF0,
        0x20, 0x60, 0x20, 0x20, 0x70,
        0xF0, 0x10, 0xF0, 0x80, 0xF0,
        0xF0, 0x10, 0xF0, 0x10, 0xF0,
        0x90, 0x90, 0xF0, 0x10, 0x10,
        0xF0, 0x80, 0xF0, 0x10, 0xF0,
        0xF0, 0x80, 0xF0, 0x90, 0xF0,
        0xF0, 0x10, 0x20, 0x40, 0x40,
        0xF0, 0x90, 0xF0, 0x90, 0xF0,
        0xF0, 0x90, 0xF0, 0x10, 0xF0,
        0xF0, 0x90, 0xF0, 0x90, 0x90,
        0xE0, 0x90, 0xE0, 0x90, 0xE0,
        0xF0, 0x80, 0x80, 0x80, 0xF0,
        0xE0, 0x90, 0x90, 0x90, 0xE0,
        0xF0, 0x80, 0xF0, 0x80, 0xF0,
        0xF0, 0x80, 0xF0, 0x80, 0x80,
    ]
}

/// Whether column `col` (0 is the leftmost) of a sprite row `byte` is lit.
pub open spec fn sprite_bit(byte: u8, col: int) -> bool {
    (byte >> ((7 - col) as u8)) & 1u8 == 1u8
}

/// The state of a freshly built machine: memory cleared but for the font,
/// which sits at `0x50`, and execution about to start at `0x200`.
pub open spec fn initial_machine() -> Machine {
    Machine {
        memory: Seq::new(
            4096,
            |a: int|
                if FONT_START <= a < FONT_START + 80 {
                    font_bytes()[a - FONT_START]
                } else {
                    0u8
                },
        ),
        v: Seq::new(16, |r: int| 0u8),
        i: 0,
        pc: PROGRAM_START,
        stack: Seq::new(16, |k: int| 0u16),
        sp: 0,
        delay_timer: 0,
        sound_timer: 0,
        display: Seq::new(2048, |p: int| false),
        keypad: Seq::new(16, |k: int| false),
    }
}

impl Machine {
    /// The sizes that the executable state fixes by its types.
    pub open spec fn well_sized(self) -> bool {
        &&& self.memory.len() == MEMORY_SIZE
        &&& self.v.len() == NUM_REGISTERS
        &&& self.stack.len() == STACK_DEPTH
        &&& self.display.len() == DISPLAY_SIZE
        &&& self.keypad.len() == NUM_KEYS
    }

    /// Register `VX` of `op`.
    pub open spec fn vx(self, op: u16) -> u8 {
        self.v[x_of(op) as int]
    }

    /// Register `VY` of `op`.
    pub open spec fn vy(self, op: u16) -> u8 {
        self.v[y_of(op) as int]
    }

    /// The machine with `rom` copied into memory from `0x200` on.
    pub open spec fn with_program(self, rom: Seq<u8>) -> Machine {
        Machine {
            memory: Seq::new(
                MEMORY_SIZE as nat,
                |a: int|
                    if PROGRAM_START <= a < PROGRAM_START + rom.len() {
                        rom[a - PROGRAM_START]
                    } else {
                        self.memory[a]
                    },
            ),
            ..self
        }
    }

    // -----------------------------------------------------------------------
    // Fetching
    // -----------------------------------------------------------------------
    /// A fetch is possible: both opcode bytes lie in memory.
    pub open spec fn can_fetch(self) -> bool {
        self.pc + 1 < MEMORY_SIZE
    }

    /// The big-endian opcode stored at `pc`.
    pub open spec fn opcode_at_pc(self) -> u16 {
        (self.memory[self.pc as int] * 0x100 + self.memory[self.pc + 1]) as u16
    }

    /// The state after fetching: `pc` moves past the two opcode bytes.
    pub open spec fn fetched(self) -> Machine {
        Machine { pc: (self.pc + 2) as u16, ..self }
    }

    // -----------------------------------------------------------------------
    // Instructions
    // -----------------------------------------------------------------------
    /// `00E0`: every pixel goes dark.
    pub open spec fn clear_display(self) -> Machine {
        Machine { display: Seq::new(DISPLAY_SIZE as nat, |p: int| false), ..self }
    }

    /// `00EE`: pop the top return address into `pc`.
    pub open spec fn ret(self) -> Machine {
        Machine { sp: (self.sp - 1) as u8, pc: self.stack[self.sp - 1], ..self }
    }

    /// `1NNN`: jump to `NNN`.
    pub open spec fn jump(self, op: u16) -> Machine {
        Machine { pc: nnn_of(op), ..self }
    }

    /// `2NNN`: push `pc` and jump to `NNN`.
    pub open spec fn call(self, op: u16) -> Machine {
        Machine {
            stack: self.stack.update(self.sp as int, self.pc),
            sp: (self.sp + 1) as u8,
            pc: nnn_of(op),
            ..self
        }
    }

    /// Skip the next instruction when `cond` holds.
    pub open spec fn skip_if(self, cond: bool) -> Machine {
        if cond {
            Machine { pc: (self.pc + 2) as u16, ..self }
        } else {
            self
        }
    }

    /// Register `X` takes `value`.
    pub open spec fn set_vx(self, op: u16, value: u8) -> Machine {
        Machine { v: self.v.update(x_of(op) as int, value), ..self }
    }

    /// Register `X` takes `value`, then the flag register takes `flag`.
    pub open spec fn set_vx_flag(self, op: u16, value: u8, flag: u8) -> Machine {
        Machine {
            v: self.v.update(x_of(op) as int, value).update(FLAG_REGISTER as int, flag),
            ..self
        }
    }

    /// `7XNN`: `VX = VX + NN`, wrapping; the flag register is left alone.
    pub open spec fn add_imm(self, op: u16) -> Machine {
        self.set_vx(op, ((self.vx(op) + nn_of(op)) % 256) as u8)
    }

    /// `8XY4`: `VX = VX + VY` wrapping, then `VF` = 1 when the sum exceeded `0xFF`.
    pub open spec fn add_reg(self, op: u16) -> Machine {
        let sum = self.vx(op) + self.vy(op);
        self.set_vx_flag(op, (sum % 256) as u8, if sum > 0xFF { 1 } else { 0 })
    }

    /// `8XY5`: `VX = VX - VY` wrapping, then `VF` = 1 when there was no borrow.
    pub open spec fn sub_reg(self, op: u16) -> Machine {
        self.set_vx_flag(
            op,
            ((self.vx(op) - self.vy(op) + 256) % 256) as u8,
            if self.vx(op) >= self.vy(op) { 1 } else { 0 },
        )
    }

    /// `8XY6`: `VX = VX / 2`, then `VF` = the bit shifted out.
    pub open spec fn shift_right(self, op: u16) -> Machine {
        self.set_vx_flag(op, self.vx(op) / 2, self.vx(op) % 2)
    }

    /// `8XY7`: `VX = VY - VX` wrapping, then `VF` = 1 when there was no borrow.
    pub open spec fn sub_reverse(self, op: u16) -> Machine {
        self.set_vx_flag(
            op,
            ((self.vy(op) - self.vx(op) + 256) % 256) as u8,
            if self.vy(op) >= self.vx(op) { 1 } else { 0 },
        )
    }

    /// `8XYE`: `VX = VX * 2` wrapping, then `VF` = the bit shifted out.
    pub open spec fn shift_left(self, op: u16) -> Machine {
        self.set_vx_flag(op, ((self.vx(op) * 2) % 256) as u8, self.vx(op) / 128)
    }

    /// `ANNN`: `I = NNN`.
    pub open spec fn set_index(self, op: u16) -> Machine {
        Machine { i: nnn_of(op), ..self }
    }

    /// `BNNN`: jump to `NNN + V0`.
    pub open spec fn jump_add_v0(self, op: u16) -> Machine {
        Machine { pc: (nnn_of(op) + self.v[0]) as u16, ..self }
    }

    /// `CXNN` with the random byte `random`: `VX = random & NN`.
    pub open spec fn rand_and(self, op: u16, random: u8) -> Machine {
        self.set_vx(op, random & nn_of(op))
    }

    /// Column of the sprite's top-left corner for `DXYN`.
    pub open spec fn sprite_x0(self, op: u16) -> int {
        (self.vx(op) % 64) as int
    }

    /// Row of the sprite's top-left corner for `DXYN`.
    pub open spec fn sprite_y0(self, op: u16) -> int {
        (self.vy(op) % 32) as int
    }

    /// Display index of pixel (`row`, `col`) of the `DXYN` sprite.
    pub open spec fn sprite_pixel_index(self, op: u16, row: int, col: int) -> int {
        (self.sprite_y0(op) + row) * 64 + self.sprite_x0(op) + col
    }

    /// Whether pixel (`row`, `col`) of the sprite read from `I` is lit.
    pub open spec fn sprite_lit(self, op: u16, row: int, col: int) -> bool {
        sprite_bit(self.memory[self.i + row], col)
    }

    /// Whether `DXYN` lights display pixel `p`. The pixels of a sprite row
    /// are consecutive display indexes starting at the row's first pixel, so
    /// `p` belongs to row `(p - start) / 64` and column `(p - start) % 64`.
    pub open spec fn sprite_draws(self, op: u16, p: int) -> bool {
        let offset = p - self.sprite_pixel_index(op, 0, 0);
        &&& 0 <= offset
        &&& offset % 64 < 8
        &&& offset / 64 < n_of(op)
        &&& self.sprite_lit(op, offset / 64, offset % 64)
    }

    /// `DXYN`: `VF` is cleared and every lit sprite pixel is switched on.
    pub open spec fn draw(self, op: u16) -> Machine {
        Machine {
            v: self.v.update(FLAG_REGISTER as int, 0),
            display: Seq::new(
                DISPLAY_SIZE as nat,
                |p: int| self.display[p] || self.sprite_draws(op, p),
            ),
            ..self
        }
    }

    /// The lowest-numbered key that is held down, if any.
    pub open spec fn first_pressed_key(self) -> Option<int> {
        if exists|k: int| 0 <= k < NUM_KEYS && self.keypad[k] {
            Some(
                choose|k: int|
                    0 <= k < NUM_KEYS && self.keypad[k] && forall|j: int|
                        0 <= j < k ==> !self.keypad[j],
            )
        } else {
            None
        }
    }

    /// `FX0A`: `VX` takes the first pressed key; with none pressed, `pc`
    /// steps back so the same instruction runs again.
    pub open spec fn wait_key(self, op: u16) -> Machine {
        match self.first_pressed_key() {
            Some(k) => self.set_vx(op, k as u8),
            None => Machine { pc: (self.pc - 2) as u16, ..self },
        }
    }

    /// `FX07`: `VX` takes the delay timer.
    pub open spec fn save_delay_timer(self, op: u16) -> Machine {
        self.set_vx(op, self.delay_timer)
    }

    /// `FX15`: the delay timer takes `VX`.
    pub open spec fn load_delay_timer(self, op: u16) -> Machine {
        Machine { delay_timer: self.vx(op), ..self }
    }

    /// `FX18`: the sound timer takes `VX`.
    pub open spec fn load_sound_timer(self, op: u16) -> Machine {
        Machine { sound_timer: self.vx(op), ..self }
    }

    /// `FX1E`: `I = I + VX`.
    pub open spec fn add_index(self, op: u16) -> Machine {
        Machine { i: (self.i + self.vx(op)) as u16, ..self }
    }

    /// `FX29`: `I` points at the font sprite of digit `VX`.
    pub open spec fn digit_location(self, op: u16) -> Machine {
        Machine { i: (FONT_START + self.vx(op) * 5) as u16, ..self }
    }

    /// `FX33`: hundreds, tens and ones of `VX` go to `I`, `I+1`, `I+2`.
    pub open spec fn break_decimal(self, op: u16) -> Machine {
        let d = self.vx(op);
        Machine {
            memory: self.memory.update(self.i as int, d / 100).update(
                self.i + 1,
                (d / 10) % 10,
            ).update(self.i + 2, d % 10),
            ..self
        }
    }

    // -----------------------------------------------------------------------
    // When an instruction can run: outside these conditions the instruction
    // would index out of bounds or overflow an address.
    // -----------------------------------------------------------------------
    /// `00EE` needs a return address on the stack.
    pub open spec fn can_return(self) -> bool {
        1 <= self.sp <= STACK_DEPTH
    }

    /// `2NNN` needs a free stack slot.
    pub open spec fn can_call(self) -> bool {
        self.sp < STACK_DEPTH
    }

    /// A skip needs room in the address space for `pc + 2`.
    pub open spec fn can_skip_if(self, cond: bool) -> bool {
        cond ==> self.pc + 2 <= u16::MAX
    }

    /// `DXYN` needs the sprite rows in memory and each lit pixel on the display.
    pub open spec fn can_draw(self, op: u16) -> bool {
        &&& (n_of(op) == 0 || self.i + n_of(op) <= MEMORY_SIZE)
        &&& forall|row: int, col: int|
            0 <= row < n_of(op) && 0 <= col < 8 && #[trigger] self.sprite_lit(op, row, col)
                ==> self.sprite_pixel_index(op, row, col) < DISPLAY_SIZE
    }

    /// `EX9E` (`pressed`) / `EXA1` (`!pressed`) need `VX` to name a key.
    pub open spec fn can_skip_key(self, op: u16, pressed: bool) -> bool {
        &&& self.vx(op) < NUM_KEYS
        &&& self.can_skip_if(self.keypad[self.vx(op) as int] == pressed)
    }

    /// `FX0A` steps `pc` back when no key is down.
    pub open spec fn can_wait_key(self) -> bool {
        self.first_pressed_key() is None ==> self.pc >= 2
    }

    /// `FX1E` needs `I + VX` to be an address.
    pub open spec fn can_add_index(self, op: u16) -> bool {
        self.i + self.vx(op) <= u16::MAX
    }

    /// `FX29` computes `VX * 5` in a byte.
    pub open spec fn can_digit_location(self, op: u16) -> bool {
        self.vx(op) * 5 <= u8::MAX
    }

    /// `FX33` writes three bytes from `I`.
    pub open spec fn can_break_decimal(self) -> bool {
        self.i + 2 < MEMORY_SIZE
    }

    /// `FX55` / `FX65` touch `X + 1` bytes from `I`.
    pub open spec fn can_transfer_registers(self, op: u16) -> bool {
        self.i + x_of(op) < MEMORY_SIZE
    }

    // -----------------------------------------------------------------------
    // Dispatch
    // -----------------------------------------------------------------------
    /// The effect of executing `op`; `random` is the byte that `CXNN` draws.
    /// Opcodes outside the implemented set leave the machine unchanged.
    pub open spec fn execute(self, op: u16, random: u8) -> Machine {
        let vx = self.vx(op);
        let vy = self.vy(op);
        let nn = nn_of(op);
        let n = n_of(op);
        match family_of(op) {
            0x0 => if op == 0x00E0 {
                self.clear_display()
            } else if op == 0x00EE {
                self.ret()
            } else {
                self
            },
            0x1 => self.jump(op),
            0x2 => self.call(op),
            0x3 => self.skip_if(vx == nn),
            0x4 => self.skip_if(vx != nn),
            0x5 => if n == 0 {
                self.skip_if(vx == vy)
            } else {
                self
            },
            0x6 => self.set_vx(op, nn),
            0x7 => self.add_imm(op),
            0x8 => if n == 0x0 {
                self.set_vx(op, vy)
            } else if n == 0x1 {
                self.set_vx(op, vx | vy)
            } else if n == 0x2 {
                self.set_vx(op, vx & vy)
            } else if n == 0x3 {
                self.set_vx(op, vx ^ vy)
            } else if n == 0x4 {
                self.add_reg(op)
            } else if n == 0x5 {
                self.sub_reg(op)
            } else if n == 0x6 {
                self.shift_right(op)
            } else if n == 0x7 {
                self.sub_reverse(op)
            } else if n == 0xE {
                self.shift_left(op)
            } else {
                self
            },
            0x9 => if n == 0 {
                self.skip_if(vx != vy)
            } else {
                self
            },
            0xA => self.set_index(op),
            0xB => self.jump_add_v0(op),
            0xC => self.rand_and(op, random),
            0xD => self.draw(op),
            0xE => if nn == 0x9E {
                self.skip_if(self.keypad[vx as int])
            } else if nn == 0xA1 {
                self.skip_if(!self.keypad[vx as int])
            } else {
                self
            },
            _ => if nn == 0x07 {
                self.save_delay_timer(op)
            } else if nn == 0x0A {
                self.wait_key(op)
            } else if nn == 0x15 {
                self.load_delay_timer(op)
            } else if nn == 0x18 {
                self.load_sound_timer(op)
            } else if nn == 0x1E {
                self.add_index(op)
            } else if nn == 0x29 {
                self.digit_location(op)
            } else if nn == 0x33 {
                self.break_decimal(op)
            } else if nn == 0x55 {
                self.save_registers(op)
            } else if nn == 0x65 {
                self.load_registers(op)
            } else {
                self
            },
        }
    }

    /// Executing `op` stays within memory, stack, display, keypad and the
    /// address range.
    pub open spec fn can_execute(self, op: u16) -> bool {
        let vx = self.vx(op);
        let vy = self.vy(op);
        let nn = nn_of(op);
        let n = n_of(op);
        match family_of(op) {
            0x0 => op == 0x00EE ==> self.can_return(),
            0x2 => self.can_call(),
            0x3 => self.can_skip_if(vx == nn),
            0x4 => self.can_skip_if(vx != nn),
            0x5 => n == 0 ==> self.can_skip_if(vx == vy),
            0x9 => n == 0 ==> self.can_skip_if(vx != vy),
            0xD => self.can_draw(op),
            0xE => {
                &&& nn == 0x9E ==> self.can_skip_key(op, true)
                &&& nn == 0xA1 ==> self.can_skip_key(op, false)
            },
            0xF => {
                &&& nn == 0x0A ==> self.can_wait_key()
                &&& nn == 0x1E ==> self.can_add_index(op)
                &&& nn == 0x29 ==> self.can_digit_location(op)
                &&& nn == 0x33 ==> self.can_break_decimal()
                &&& (nn == 0x55 || nn == 0x65) ==> self.can_transfer_registers(op)
            },
            _ => true,
        }
    }

    /// One machine cycle can run: fetch, then execute the fetched opcode.
    pub open spec fn can_cycle(self) -> bool {
        self.can_fetch() && self.fetched().can_execute(self.opcode_at_pc())
    }

    /// The effect of one machine cycle, given the byte a `CXNN` would draw.
    pub open spec fn cycle(self, random: u8) -> Machine {
        self.fetched().execute(self.opcode_at_pc(), random)
    }

    /// `FX55`: `V0..=VX` are copied to memory from `I` on.
    pub open spec fn save_registers(self, op: u16) -> Machine {
        Machine {
            memory: Seq::new(
                MEMORY_SIZE as nat,
                |a: int|
                    if self.i <= a <= self.i + x_of(op) {
                        self.v[a - self.i]
                    } else {
                        self.memory[a]
                    },
            ),
            ..self
        }
    }

    /// `FX65`: `V0..=VX` are loaded from memory from `I` on.
    pub open spec fn load_registers(self, op: u16) -> Machine {
        Machine {
            v: Seq::new(
                NUM_REGISTERS as nat,
                |r: int|
                    if r <= x_of(op) {
                        self.memory[self.i + r]
                    } else {
                        self.v[r]
                    },
            ),
            ..self
        }
    }
}

} // verus!
