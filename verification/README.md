# new_project

The core of a CHIP-8 interpreter, written in Verus: every operation states in
its contract what it does to the machine, and Verus proves it.

- `src/chip8/module.rs` — the decoded instructions, grouped by the part of the
  machine they use.
- `src/chip8/opcode.rs` — decoding of 16-bit opcodes, with the encoding that
  it inverts.
- `src/chip8/keypad.rs`, `display.rs`, `memory.rs` — the sixteen-key keypad,
  the 64×32 monochrome frame buffer (sprites are XOR-ed on; a collision is a
  lit pixel turned off) and the 4 KiB memory with the built-in font.
- `src/chip8/cpu.rs` — registers, timers, the return-address stack, the
  processor, and the whole machine (`Emulator`) with its abstract state
  `Machine`.
- `src/chip8/multy_executor.rs` — the meaning of each instruction as a
  function on `Machine`, the fetch-decode-execute cycle that is proved to
  follow it, and laws relating instructions to each other.
- `app/main.rs` — the window, keyboard and file handling around the library.

One item is trusted rather than proved: `random_byte` in
`src/chip8/multy_executor.rs`, which asks the operating system's generator
(`rand::rngs::OsRng`, `try_fill_bytes`) for the byte of the `Rand` instruction
and gives `None` when the generator reports an error. It claims nothing of the
byte. `ex_data_with_random` takes that byte as an argument and is verified for
every value of it; `ex_data`, `cycle` and `run_frame` state what happens when
no byte comes (the instruction does not run and the machine is unchanged).
