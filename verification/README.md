# rs_unicorn

Verified frame-buffer logic for a 16x7 RGB LED matrix (Pimoroni Pico Unicorn)
driven by binary-coded modulation from an RP2040 PIO state machine.

- `src/layout.rs`: where every byte of the 1260-byte bit stream lives, the
  gamma table, and what writing one pixel does to the stream.
- `src/unicorn.rs`: the frame buffer: building the initial stream, writing
  pixels, and the words one refresh sends to the state machine.
- `src/light.rs`: over one refresh each channel of a written pixel is lit for
  exactly its gamma-corrected intensity in ticks, and a larger channel value
  is never lit for less.
- `src/pixel_laws.rs`: writes are local, the last write wins, writes to
  different pixels commute, the timing bytes are never touched, and each
  pixel nibble sits in a known nibble of the words sent to the state machine.
- `src/scene.rs`, `src/graphics.rs`, `src/rng.rs`: the colour wheel, disco
  floor and sparkle animations, described as drawing operations.
- `app/lib.rs`: the RP2040 side: PIO program, pin set-up, pushing words to the
  FIFO, and the scenes as embedded-graphics drawables.
