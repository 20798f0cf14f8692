# chip8

A CHIP-8 virtual machine and a line assembler, verified with Verus.

- `src/machine.rs`: the model — `Machine`, the view of the machine state, with one
  spec function per instruction, the dispatch `execute`, and the conditions
  (`can_*`) under which an instruction stays within memory, stack, display and
  address range.
- `src/cpu.rs`: `Chip8` and `Instruction`; `new`, `load_rom_bytes`, `fetch`,
  `decode`, `execute`, `cycle`, and the run-time checks `can_execute` / `can_cycle`.
- `src/opcodes.rs`: one method per instruction, each proved against its model.
- `src/assembler.rs`: tokenizer, number parsing and `assemble` for
  `LD VX, NN`, `ADD VX, NN` and `ADD VX, VY`.
- `src/laws.rs`: properties across instructions (a return undoes a call, loading
  after saving keeps registers, carries and borrows, big-endian fetch, ...).
- `app/main.rs`: the terminal front end (ROM file, frame loop, drawing) and the
  `asm` subcommand (reads `test.asm`, writes `out.ch8`).
