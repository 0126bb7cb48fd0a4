# hack_and_hike

Firmware logic for the M5Stack CoreS3 Lite "Hack & Hike" device, verified
with Verus.

- `src/` is the verified library: the beacon protocol, the peer table, the
  log history ring and log views, touch tracking, audio block assembly and
  playback mixing, magnetometer frame decoding and health tracking, stack
  and heap accounting, the live-view framebuffer and the LCD scanlines, and
  the application model that routes CPU1 data to the view on screen. The
  `embassy-sync` hand-over primitives are called through small trusted
  functions in `slots.rs`.
- `tests/` runs the library on concrete values.
- `app/` is the firmware shell: chip bring-up, the CPU1 tasks that talk to
  the sensors and the radio, the CPU0 presentation loop, the `log` backend,
  and the floating-point fusion and magnetometer calibration.
