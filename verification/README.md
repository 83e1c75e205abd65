# gameroy pixel-processing unit

The picture side of a Game Boy emulator, verified with Verus.

- `src/ppu.rs`: the unit's registers and state (`Ppu`, `Sprite`), its model
  `PpuModel`, the power-on state and the register accessors.
- `src/fifo.rs`: the background and sprite pixel FIFOs.
- `src/model.rs`: what one clock cycle does, over `PpuModel` and the address space:
  mode transitions, the OAM search, the pixel fetcher and the pixel output.
- `src/update.rs`: `Ppu::update`, which runs the pending clock cycles and is proved
  to do what `model.rs` states; it stops at V-Blank so that the caller can run its
  V-Blank hook.
- `src/draw.rs`, `src/scanline.rs`: drawing tiles, tile maps, sprites, the screen
  and a whole scanline from video memory.
- `src/save_state.rs`: the save-state encoding and its round trips.
- `src/jit.rs`: the block compiler's decisions that do not depend on compiled code,
  and the running totals of a block trace (length, cycles, interrupt checks).
- `src/ui.rs`: the clock counter text, the joypad state and what each key does.
- `src/listing.rs`: one line of the disassembly listing, with its label and
  address markers removed and their ranges kept.
- `src/laws.rs`: properties of every cycle and every run (LY, shades, memory
  writes, sprite order, scanline drawing, updates split across calls and V-Blank
  stops).
- `app/lib.rs`: the emulator-facing functions: pixel callbacks, the V-Blank hook,
  streams for save states.
