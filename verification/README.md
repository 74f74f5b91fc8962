# c8

A CHIP-8 (with SUPER-CHIP and XO-CHIP extensions) emulator core whose
behaviour is stated in contracts and proved with Verus.

- `src/` is the verified library:
  - `isa.rs` states what each instruction does to a machine (CPU state,
    memory, display, stack) as spec functions; `sprite.rs` states sprite
    drawing and collisions.
  - `cpu.rs`, `display.rs`, `memory.rs`, `keypad.rs`, `fonts.rs` and
    `device.rs` are the executable parts, each proved to follow those
    specifications; `device.rs` also states a whole frame (timers, CPU
    steps, messages, sound requests).
  - `quirks.rs`, `palette.rs`, `input.rs`, `locale.rs`, `roms.rs`,
    `render.rs`, `audio.rs` and `observer.rs` hold the settings, colours,
    keyboard layouts, screen rendering, beeper control and a small
    publish/subscribe helper.
  - `laws.rs` proves properties that relate several operations (drawing a
    sprite twice erases it, a call followed by a return comes back, a frame
    keeps the device well formed, and others).
- `tests/` runs the library on concrete programs and values.
- `app/` is a headless player: it loads a ROM file, runs it for a number of
  frames and prints the screen.

## Instruction behaviour

- An instruction outside the set (such as `5XY1`, `8XY8`, `E000`, `F099`,
  or `0X..` with X not 0) changes nothing and is reported as
  `UnknownOpCode` with its opcode.
- `00FE` and `00FF` change the resolution when they run (the planes are
  cleared at the new size) and report `ChangeResolution`. At the end of the
  frame the device sets that resolution again, which clears the planes once
  more, so what the frame drew after the change does not stay.
- `00FD` keeps the program counter on itself and reports `Exit`; at the
  end of the frame the device resets.
- `FX02` reports `NewAudioBuffer`, and `FX18` reports `Beep` with the new
  sound timer value; a beep asks the sound output to play when sound is
  enabled.
- A step that cannot be carried out (a return with an empty stack, a read
  or write past the end of memory, an index or counter overflow) reports
  `Fault` with the program counter and stops the device.

The bundled ROM collections are not part of the library: programs are
loaded from bytes, and the player in `app/` reads them from files.
