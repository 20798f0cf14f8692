//! What each instruction does, stated field by field in terms of the machine
//! before it: these pin down the dispatch and every instruction's effect
//! independently of how the model composes them.
use vstd::prelude::*;
use crate::machine::{
    Machine, family_of, x_of, y_of, n_of, nn_of, nnn_of, font_bytes, initial_machine,
};

verus! {

/// Control flow: `00E0`, `00EE`, `1NNN`, `2NNN`, `BNNN` and the skips.
pub proof fn law_execute_control_flow(m: Machine, op: u16, r: u8)
    requires
        m.well_sized(),
        m.can_execute(op),
    ensures
        op == 0x00E0 ==> (Machine { display: m.display, ..m.execute(op, r) }) == m,
        op == 0x00E0 ==> m.execute(op, r).display.len() == 2048,
        op == 0x00E0 ==> (forall|p: int| 0 <= p < 2048 ==> !#[trigger] m.execute(op, r).display[p]),
        op == 0x00EE ==> m.execute(op, r) == (Machine {
            sp: (m.sp - 1) as u8,
            pc: m.stack[m.sp - 1],
            ..m
        }),
        family_of(op) == 0x1 ==> m.execute(op, r) == (Machine { pc: nnn_of(op), ..m }),
        family_of(op) == 0x2 ==> m.execute(op, r) == (Machine {
            stack: m.stack.update(m.sp as int, m.pc),
            sp: (m.sp + 1) as u8,
            pc: nnn_of(op),
            ..m
        }),
        family_of(op) == 0xB ==> m.execute(op, r) == (Machine {
            pc: (nnn_of(op) + m.v[0]) as u16,
            ..m
        }),
        family_of(op) == 0x3 ==> m.execute(op, r) == (Machine {
            pc: if m.v[x_of(op) as int] == nn_of(op) { (m.pc + 2) as u16 } else { m.pc },
            ..m
        }),
        family_of(op) == 0x4 ==> m.execute(op, r) == (Machine {
            pc: if m.v[x_of(op) as int] != nn_of(op) { (m.pc + 2) as u16 } else { m.pc },
            ..m
        }),
        family_of(op) == 0x5 && n_of(op) == 0 ==> m.execute(op, r) == (Machine {
            pc: if m.v[x_of(op) as int] == m.v[y_of(op) as int] {
                (m.pc + 2) as u16
            } else {
                m.pc
            },
            ..m
        }),
        family_of(op) == 0x9 && n_of(op) == 0 ==> m.execute(op, r) == (Machine {
            pc: if m.v[x_of(op) as int] != m.v[y_of(op) as int] {
                (m.pc + 2) as u16
            } else {
                m.pc
            },
            ..m
        }),
        family_of(op) == 0xE && nn_of(op) == 0x9E ==> m.execute(op, r) == (Machine {
            pc: if m.keypad[m.v[x_of(op) as int] as int] { (m.pc + 2) as u16 } else { m.pc },
            ..m
        }),
        family_of(op) == 0xE && nn_of(op) == 0xA1 ==> m.execute(op, r) == (Machine {
            pc: if !m.keypad[m.v[x_of(op) as int] as int] { (m.pc + 2) as u16 } else { m.pc },
            ..m
        }),
{
    if op == 0x00E0 {
        assert(Machine { display: m.display, ..m.execute(op, r) } =~= m);
    }
}

/// Register instructions: `6XNN`, `7XNN`, `8XY0`-`8XYE`, `ANNN`, `CXNN`, and
/// the timer, index and font instructions of family `F`.
pub proof fn law_execute_registers(m: Machine, op: u16, r: u8)
    requires
        m.well_sized(),
        m.can_execute(op),
    ensures
        ({
            let x = x_of(op) as int;
            let vx = m.v[x_of(op) as int];
            let vy = m.v[y_of(op) as int];
            let nn = nn_of(op);
            let f = family_of(op);
            let n = n_of(op);
            &&& f == 0x6 ==> m.execute(op, r) == (Machine { v: m.v.update(x, nn), ..m })
            &&& f == 0x7 ==> m.execute(op, r) == (Machine {
                v: m.v.update(x, ((vx + nn) % 256) as u8),
                ..m
            })
            &&& f == 0x8 && n == 0 ==> m.execute(op, r) == (Machine { v: m.v.update(x, vy), ..m })
            &&& f == 0x8 && n == 1 ==> m.execute(op, r) == (Machine {
                v: m.v.update(x, vx | vy),
                ..m
            })
            &&& f == 0x8 && n == 2 ==> m.execute(op, r) == (Machine {
                v: m.v.update(x, vx & vy),
                ..m
            })
            &&& f == 0x8 && n == 3 ==> m.execute(op, r) == (Machine {
                v: m.v.update(x, vx ^ vy),
                ..m
            })
            &&& f == 0x8 && n == 4 ==> m.execute(op, r) == (Machine {
                v: m.v.update(x, ((vx + vy) % 256) as u8).update(
                    15,
                    if vx + vy > 255 { 1u8 } else { 0u8 },
                ),
                ..m
            })
            &&& f == 0x8 && n == 5 ==> m.execute(op, r) == (Machine {
                v: m.v.update(x, ((vx - vy + 256) % 256) as u8).update(
                    15,
                    if vx >= vy { 1u8 } else { 0u8 },
                ),
                ..m
            })
            &&& f == 0x8 && n == 6 ==> m.execute(op, r) == (Machine {
                v: m.v.update(x, vx / 2).update(15, vx % 2),
                ..m
            })
            &&& f == 0x8 && n == 7 ==> m.execute(op, r) == (Machine {
                v: m.v.update(x, ((vy - vx + 256) % 256) as u8).update(
                    15,
                    if vy >= vx { 1u8 } else { 0u8 },
                ),
                ..m
            })
            &&& f == 0x8 && n == 0xE ==> m.execute(op, r) == (Machine {
                v: m.v.update(x, ((vx * 2) % 256) as u8).update(15, vx / 128),
                ..m
            })
            &&& f == 0xA ==> m.execute(op, r) == (Machine { i: nnn_of(op), ..m })
            &&& f == 0xC ==> m.execute(op, r) == (Machine { v: m.v.update(x, r & nn), ..m })
            &&& f == 0xF && nn == 0x07 ==> m.execute(op, r) == (Machine {
                v: m.v.update(x, m.delay_timer),
                ..m
            })
            &&& f == 0xF && nn == 0x15 ==> m.execute(op, r) == (Machine { delay_timer: vx, ..m })
            &&& f == 0xF && nn == 0x18 ==> m.execute(op, r) == (Machine { sound_timer: vx, ..m })
            &&& f == 0xF && nn == 0x1E ==> m.execute(op, r) == (Machine {
                i: (m.i + vx) as u16,
                ..m
            })
            &&& f == 0xF && nn == 0x29 ==> m.execute(op, r) == (Machine {
                i: (0x50 + 5 * vx) as u16,
                ..m
            })
            &&& f == 0xF && nn == 0x33 ==> m.execute(op, r) == (Machine {
                memory: m.memory.update(m.i as int, vx / 100).update(m.i + 1, (vx / 10) % 10).update(
                    m.i + 2,
                    vx % 10,
                ),
                ..m
            })
        }),
{
}

/// `DXYN`, `FX0A`, `FX55` and `FX65` run their own instructions, whose
/// effects the laws below state.
pub proof fn law_execute_routes(m: Machine, op: u16, r: u8)
    requires
        m.well_sized(),
        m.can_execute(op),
    ensures
        family_of(op) == 0xD ==> m.execute(op, r) == m.draw(op),
        family_of(op) == 0xF && nn_of(op) == 0x0A ==> m.execute(op, r) == m.wait_key(op),
        family_of(op) == 0xF && nn_of(op) == 0x55 ==> m.execute(op, r) == m.save_registers(op),
        family_of(op) == 0xF && nn_of(op) == 0x65 ==> m.execute(op, r) == m.load_registers(op),
{
}

/// Opcodes outside the implemented set change nothing.
pub proof fn law_unknown_opcodes_change_nothing(m: Machine, op: u16, r: u8)
    requires
        (family_of(op) == 0x0 && op != 0x00E0 && op != 0x00EE) || ((family_of(op) == 0x5
            || family_of(op) == 0x9) && n_of(op) != 0) || (family_of(op) == 0x8 && 8 <= n_of(op)
            < 0xE) || (family_of(op) == 0x8 && n_of(op) == 0xF) || (family_of(op) == 0xE
            && nn_of(op) != 0x9E && nn_of(op) != 0xA1) || (family_of(op) == 0xF && nn_of(op)
            != 0x07 && nn_of(op) != 0x0A && nn_of(op) != 0x15 && nn_of(op) != 0x18 && nn_of(op)
            != 0x1E && nn_of(op) != 0x29 && nn_of(op) != 0x33 && nn_of(op) != 0x55 && nn_of(op)
            != 0x65),
    ensures
        m.execute(op, r) == m,
{
}

/// Fetching moves `pc` past the two opcode bytes and changes nothing else.
pub proof fn law_fetch_moves_pc(m: Machine)
    ensures
        m.fetched() == (Machine { pc: (m.pc + 2) as u16, ..m }),
{
}

/// `DXYN` lights, for every row `row < N` and column `col < 8` whose bit
/// `7 - col` is set in `memory[I + row]`, the pixel
/// `((VY % 32) + row) * 64 + (VX % 64) + col`; a pixel it lights was lit
/// before or is one of those; `VF` becomes 0 and nothing else changes.
pub proof fn law_draw_pixels(m: Machine, op: u16)
    requires
        m.well_sized(),
        m.can_draw(op),
    ensures
        forall|row: int, col: int|
            0 <= row < n_of(op) && 0 <= col < 8 && (m.memory[m.i + row] >> ((7 - col) as u8))
                & 1u8 == 1u8 ==> #[trigger] m.draw(op).display[((m.v[y_of(op) as int] % 32)
                + row) * 64 + (m.v[x_of(op) as int] % 64) + col],
        forall|p: int|
            0 <= p < 2048 && #[trigger] m.draw(op).display[p] ==> (m.display[p] || (exists|
                row: int,
                col: int,
            |
                0 <= row < n_of(op) && 0 <= col < 8 && #[trigger] ((m.memory[m.i + row] >> ((7 - col) as u8))
                    & 1u8) == 1u8 && p == ((m.v[y_of(op) as int] % 32) + row) * 64 + (m.v[x_of(
                    op,
                ) as int] % 64) + col)),
        forall|p: int| 0 <= p < 2048 && m.display[p] ==> #[trigger] m.draw(op).display[p],
        m.draw(op).display.len() == 2048,
        (Machine { display: m.display, ..m.draw(op) }) == (Machine {
            v: m.v.update(15, 0),
            ..m
        }),
{
    let x0 = (m.v[x_of(op) as int] % 64) as int;
    let y0 = (m.v[y_of(op) as int] % 32) as int;
    let start = y0 * 64 + x0;
    assert forall|row: int, col: int|
        0 <= row < n_of(op) && 0 <= col < 8 && (m.memory[m.i + row] >> ((7 - col) as u8)) & 1u8
            == 1u8 implies #[trigger] m.draw(op).display[(y0 + row) * 64 + x0 + col] by {
        let p = (y0 + row) * 64 + x0 + col;
        crate::opcodes::lemma_pixel_offset(p - start, row, col);
        assert(m.sprite_lit(op, row, col));
        assert(m.sprite_pixel_index(op, row, col) == p);
        assert(p < 2048);
        assert(m.sprite_draws(op, p));
    }
    assert forall|p: int|
        0 <= p < 2048 && #[trigger] m.draw(op).display[p] implies m.display[p] || exists|
            row: int,
            col: int,
        |
            0 <= row < n_of(op) && 0 <= col < 8 && #[trigger] ((m.memory[m.i + row] >> ((7 - col) as u8))
                & 1u8) == 1u8 && p == (y0 + row) * 64 + x0 + col by {
        if !m.display[p] {
            let offset = p - start;
            let row = offset / 64;
            let col = offset % 64;
            assert(m.sprite_draws(op, p));
            crate::opcodes::lemma_pixel_offset(offset, row, col);
            assert(0 <= row < n_of(op) && 0 <= col < 8 && (m.memory[m.i + row] >> ((7 - col) as u8))
                & 1u8 == 1u8 && p == (y0 + row) * 64 + x0 + col);
        }
    }
    assert(Machine { display: m.display, ..m.draw(op) } =~= (Machine { v: m.v.update(15, 0), ..m }));
}

/// `FX0A`: with key `k` held and every lower key up, `VX` becomes `k` and
/// nothing else changes (key 0 included); with no key held, `pc` steps back
/// by 2 and nothing else changes.
pub proof fn law_wait_key_effect(m: Machine, op: u16, k: int)
    requires
        m.well_sized(),
        0 <= k < 16,
    ensures
        (m.keypad[k] && (forall|j: int| 0 <= j < k ==> !m.keypad[j])) ==> (m.wait_key(op) == (
        Machine { v: m.v.update(x_of(op) as int, k as u8), ..m })),
        (forall|j: int| 0 <= j < 16 ==> !m.keypad[j]) ==> (m.wait_key(op) == (Machine {
            pc: (m.pc - 2) as u16,
            ..m
        })),
{
    if m.keypad[k] && (forall|j: int| 0 <= j < k ==> !m.keypad[j]) {
        assert(exists|j: int| 0 <= j < 16 && m.keypad[j]);
        let c = choose|j: int|
            0 <= j < 16 && m.keypad[j] && forall|i: int| 0 <= i < j ==> !m.keypad[i];
        assert(0 <= k < 16 && m.keypad[k] && forall|i: int| 0 <= i < k ==> !m.keypad[i]);
        assert(c == k) by {
            if c < k {
                assert(!m.keypad[c]);
            }
            if k < c {
                assert(!m.keypad[k]);
            }
        }
    }
}

/// `FX65`: for every `r <= X`, `V[r]` becomes `memory[I + r]`, whatever it
/// held; higher registers and everything else stay. `FX55`: for every
/// `r <= X`, `memory[I + r]` becomes `V[r]`; all other bytes and everything
/// else stay.
pub proof fn law_transfer_registers(m: Machine, op: u16)
    requires
        m.well_sized(),
        m.can_transfer_registers(op),
    ensures
        m.load_registers(op).v.len() == 16,
        forall|r: int| 0 <= r <= x_of(op) ==> #[trigger] m.load_registers(op).v[r] == m.memory[m.i + r],
        forall|r: int| x_of(op) < r < 16 ==> #[trigger] m.load_registers(op).v[r] == m.v[r],
        (Machine { v: m.v, ..m.load_registers(op) }) == m,
        m.save_registers(op).memory.len() == 4096,
        forall|r: int| 0 <= r <= x_of(op) ==> #[trigger] m.save_registers(op).memory[m.i + r] == m.v[r],
        forall|a: int|
            0 <= a < 4096 && !(m.i <= a <= m.i + x_of(op)) ==> #[trigger] m.save_registers(op).memory[a]
                == m.memory[a],
        (Machine { memory: m.memory, ..m.save_registers(op) }) == m,
{
    assert(Machine { v: m.v, ..m.load_registers(op) } =~= m);
    assert(Machine { memory: m.memory, ..m.save_registers(op) } =~= m);
}

/// Loading a ROM puts byte `k` of the ROM at `0x200 + k`, leaves every other
/// byte of memory (the font among them) and every other field as it was.
pub proof fn law_load_program(m: Machine, rom: Seq<u8>)
    requires
        m.well_sized(),
        rom.len() <= 0xE00,
    ensures
        m.with_program(rom).memory.len() == 4096,
        forall|k: int| 0 <= k < rom.len() ==> #[trigger] m.with_program(rom).memory[0x200 + k] == rom[k],
        forall|a: int|
            0 <= a < 4096 && !(0x200 <= a < 0x200 + rom.len()) ==> #[trigger] m.with_program(
                rom,
            ).memory[a] == m.memory[a],
        (Machine { memory: m.memory, ..m.with_program(rom) }) == m,
        forall|k: int|
            0 <= k < 80 ==> #[trigger] initial_machine().with_program(rom).memory[0x50 + k]
                == font_bytes()[k],
{
    assert(Machine { memory: m.memory, ..m.with_program(rom) } =~= m);
    assert forall|k: int| 0 <= k < 80 implies #[trigger] initial_machine().with_program(
        rom,
    ).memory[0x50 + k] == font_bytes()[k] by {
        assert(initial_machine().memory[0x50 + k] == font_bytes()[k]);
    }
}

/// When an instruction can run, stated on the machine's fields: exactly
/// where running it would not index out of bounds or overflow an address.
pub proof fn law_can_execute_exactly(m: Machine, op: u16)
    requires
        m.well_sized(),
    ensures
        ({
            let f = family_of(op);
            let n = n_of(op);
            let nn = nn_of(op);
            let vx = m.v[x_of(op) as int];
            let vy = m.v[y_of(op) as int];
            let room = m.pc + 2 <= 0xFFFF;
            &&& op == 0x00EE ==> (m.can_execute(op) <==> 1 <= m.sp <= 16)
            &&& f == 0x2 ==> (m.can_execute(op) <==> m.sp < 16)
            &&& f == 0x3 ==> (m.can_execute(op) <==> (vx == nn ==> room))
            &&& f == 0x4 ==> (m.can_execute(op) <==> (vx != nn ==> room))
            &&& f == 0x5 ==> (m.can_execute(op) <==> (n == 0 && vx == vy ==> room))
            &&& f == 0x9 ==> (m.can_execute(op) <==> (n == 0 && vx != vy ==> room))
            &&& f == 0xD ==> (m.can_execute(op) <==> ((n == 0 || m.i + n <= 4096) && forall|
                row: int,
                col: int,
            |
                0 <= row < n && 0 <= col < 8 && #[trigger] ((m.memory[m.i + row] >> ((7
                    - col) as u8)) & 1u8) == 1u8 ==> ((vy % 32) + row) * 64 + (vx % 64) + col
                    < 2048))
            &&& f == 0xE && nn == 0x9E ==> (m.can_execute(op) <==> (vx < 16 && (m.keypad[vx as int]
                ==> room)))
            &&& f == 0xE && nn == 0xA1 ==> (m.can_execute(op) <==> (vx < 16 && (!m.keypad[vx as int]
                ==> room)))
            &&& f == 0xF && nn == 0x0A ==> (m.can_execute(op) <==> ((exists|k: int|
                0 <= k < 16 && #[trigger] m.keypad[k]) || m.pc >= 2))
            &&& f == 0xF && nn == 0x1E ==> (m.can_execute(op) <==> m.i + vx <= 0xFFFF)
            &&& f == 0xF && nn == 0x29 ==> (m.can_execute(op) <==> vx <= 51)
            &&& f == 0xF && nn == 0x33 ==> (m.can_execute(op) <==> m.i + 2 < 4096)
            &&& f == 0xF && (nn == 0x55 || nn == 0x65) ==> (m.can_execute(op) <==> m.i + x_of(op)
                < 4096)
            &&& (f == 0x1 || f == 0x6 || f == 0x7 || f == 0x8 || f == 0xA || f == 0xB || f == 0xC
                || (f == 0x0 && op != 0x00EE)) ==> m.can_execute(op)
        }),
{
    if family_of(op) == 0xF && nn_of(op) == 0x0A {
        if exists|k: int| 0 <= k < 16 && #[trigger] m.keypad[k] {
            let k = choose|k: int| 0 <= k < 16 && #[trigger] m.keypad[k];
            assert(0 <= k < 16 && m.keypad[k]);
        }
    }
    if family_of(op) == 0xD {
        let n = n_of(op);
        let vx = m.v[x_of(op) as int];
        let vy = m.v[y_of(op) as int];
        let direct = forall|row: int, col: int|
            0 <= row < n && 0 <= col < 8 && #[trigger] ((m.memory[m.i + row] >> ((7 - col) as u8))
                & 1u8) == 1u8 ==> ((vy % 32) + row) * 64 + (vx % 64) + col < 2048;
        if m.can_draw(op) {
            assert forall|row: int, col: int|
                0 <= row < n && 0 <= col < 8 && #[trigger] ((m.memory[m.i + row] >> ((7
                    - col) as u8)) & 1u8) == 1u8 implies ((vy % 32) + row) * 64 + (vx % 64) + col
                < 2048 by {
                assert(m.sprite_lit(op, row, col));
            }
        }
        if direct {
            assert forall|row: int, col: int|
                0 <= row < n_of(op) && 0 <= col < 8 && #[trigger] m.sprite_lit(op, row, col)
                    implies m.sprite_pixel_index(op, row, col) < 2048 by {
                assert(((m.memory[m.i + row] >> ((7 - col) as u8)) & 1u8) == 1u8);
            }
        }
    }
}

/// A new machine: memory is zero but for the font at `0x50..0xA0`, every
/// register, stack slot, timer, pixel and key is clear, `I` is 0 and
/// execution starts at `0x200`.
pub proof fn law_initial_machine()
    ensures
        initial_machine().well_sized(),
        forall|k: int| 0 <= k < 80 ==> #[trigger] initial_machine().memory[0x50 + k] == font_bytes()[k],
        forall|a: int|
            0 <= a < 4096 && !(0x50 <= a < 0xA0) ==> #[trigger] initial_machine().memory[a] == 0,
        forall|r: int| 0 <= r < 16 ==> #[trigger] initial_machine().v[r] == 0,
        forall|k: int| 0 <= k < 16 ==> #[trigger] initial_machine().stack[k] == 0,
        forall|p: int| 0 <= p < 2048 ==> !#[trigger] initial_machine().display[p],
        forall|k: int| 0 <= k < 16 ==> !#[trigger] initial_machine().keypad[k],
        initial_machine().i == 0,
        initial_machine().pc == 0x200,
        initial_machine().sp == 0,
        initial_machine().delay_timer == 0,
        initial_machine().sound_timer == 0,
{
    assert forall|k: int| 0 <= k < 80 implies #[trigger] initial_machine().memory[0x50 + k]
        == font_bytes()[k] by {
    }
}

/// A cycle is a fetch (the big-endian opcode at `pc`, with `pc` moved past
/// it) followed by the execution of that opcode.
pub proof fn law_cycle_is_fetch_then_execute(m: Machine, r: u8)
    requires
        m.well_sized(),
        m.can_fetch(),
    ensures
        m.cycle(r) == (Machine { pc: (m.pc + 2) as u16, ..m }).execute(
            (m.memory[m.pc as int] * 256 + m.memory[m.pc + 1]) as u16,
            r,
        ),
        m.can_cycle() == (Machine { pc: (m.pc + 2) as u16, ..m }).can_execute(
            (m.memory[m.pc as int] * 256 + m.memory[m.pc + 1]) as u16,
        ),
{
}

} // verus!
