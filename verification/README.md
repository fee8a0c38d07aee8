# fast_atari_rs

An Atari 2600 emulator (6502 CPU, rendering and headless TIA, PIA/RIOT,
cartridge bankswitching), its reinforcement-learning environments, and the
ROM analysis and CUDA code generation behind its GPU batch environment.
The library in `src/` is written in Verus: every function carries a contract
over a mathematical model of the machine, and Verus proves it.

## Layout

- `src/cpu.rs` — the 6502: status flags, the memory interface, one
  instruction per `step`.
- `src/isa.rs` — the instruction set as spec functions, and the proof that
  every instruction takes the cycles and bytes of the opcode tables.
- `src/pia.rs`, `src/headless_tia.rs`, `src/tia.rs` — the RIOT chip, the TIA
  without rendering, and the rendering TIA (framebuffer, sprites, playfield).
- `src/atari.rs` — cartridge schemes, the system bus, joystick actions, the
  full console and the headless console, frame running.
- `src/rl4burn_env.rs` — episodic environments with frameskip and a step
  limit.
- `src/dispatch.rs`, `src/dispatch_equiv.rs` — the per-opcode handler table
  and the proof that it executes as `Cpu::step` does.
- `src/rom_compiler.rs` — opcode classification and discovery of the basic
  blocks reachable from the interrupt vectors.
- `src/codegen.rs`, `src/kernel.rs` — CUDA text for each block and for the
  whole compiled kernel.
- `src/cuda_env.rs` — the GPU state layout, initial batch states, kernel
  choice and launch geometry.
- `app/` — what touches the outside world: the CUDA driver (cudarc), reading
  device headers from disk, float observations and the environment trait.
- `tests/` — executable tests of the library.
