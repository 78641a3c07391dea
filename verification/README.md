# epaper

A verified driver library for a 960x540 e-paper panel of sixteen gray levels (ED047TC1) on the
Lilygo T5 E-Paper S3 Pro, its TPS65185 supply and its GT911 touch controller, written in Rust and
proved with [Verus](https://github.com/verus-lang/verus).

The library does no input or output. It hands out the work for the hardware one piece at a time and
takes the replies:

```rust
let mut display = Display::new();
display.set_pixel(10, 20, 0)?;
let mut scan = display.flush(DrawMode::BlackOnWhite);
let mut reply = Reply::Done;
let result = loop {
    match scan.step(&mut display, reply) {
        Step::Perform(op) => reply = hardware.perform(op),
        Step::Finished(result) => break result,
    }
};
```

## Layout

- `src/display.rs`: the framebuffer and its dirty rows.
- `src/graphics.rs`: the canvas and its rotation.
- `src/waveform.rs`, `src/bits.rs`: drive codes of gray levels, and the rows that carry them.
- `src/panel.rs`: what makes up a frame and a row.
- `src/scan.rs`, `src/refresh.rs`: scans of the panel: flush, clear and repair.
- `src/power.rs`: the supply.
- `src/gt911.rs`, `src/bus.rs`: the touch controller, and other devices on the I2C bus.
- `src/hardware.rs`, `src/error.rs`: the boundary to the hardware.
- `src/laws.rs`, `src/image_laws.rs`: what holds of every scan, and of every frame.
- `app/`: the board, the `embedded-graphics` canvas and a demo. On a host the demo is a dry run.

Operations on one display run one at a time: finish a scan before the next one, and draw between
scans, not during one.
