# chip8

A CHIP-8 interpreter with a terminal front end. The interpreter core is a
Verus-verified library:

- `src/machine.rs` — the mathematical model: machine state, the fault an
  instruction raises (`fault_of`), what one instruction does (`step`), and
  runs of several instructions (`run`).
- `src/emulator.rs` — the `Emulator` state (registers, memory, stack, screen,
  keypad, timers) with power-on, ROM loading, reset, timers and keypad.
- `src/execute.rs` — fetch, decode and execution, proved equal to `step`;
  `CXNN` draws its random byte from `rand`.
- `src/runtime.rs` — one frame of the main loop and the buzzer decisions.
- `src/keys.rs` — the keyboard-to-keypad layout and key event handling.
- `src/display.rs` — text rendering of the screen.
- `src/laws.rs` — properties spanning instructions, timers, keys and text.

`app/` holds the unverified program around it: the terminal UI (ratatui,
crossterm), audio (rodio), and the frame pacing, which uses floating point.
