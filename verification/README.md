# pocketjs_kobo

The verified core of the PocketJS host for Kobo e-readers, and of the P3M1
mesh asset reader. Every function in `src/` carries a Verus contract; the
laws the host relies on are stated as public proof functions beside the code
they are about.

## Layout

- `src/args.rs` — settings: environment defaults overridden by command-line
  words.
- `src/refresh.rs` — the e-ink refresh policy: which waveform, when to
  throttle motion, when a quiet or ghosting cleanup is owed, and what holds
  over any run of calls.
- `src/epdc.rs` — the panel update queue's markers and the `mxcfb` request
  numbers.
- `src/damage.rs` — damage rectangles, their bounding union, and the region
  two frames differ in.
- `src/touch.rs`, `src/input.rs`, `src/devices.rs` — evdev event decoding,
  axis extents and overrides, calibration, and the touch wire word.
- `src/geometry.rs` — the logical viewport on the physical panel, upright or
  turned.
- `src/power.rs` — the power key: which events are presses and releases, and
  what a release asks for.
- `src/host.rs`, `src/pacing.rs` — the virtual frame rate, the boot clock and
  the logic loop's catch-up budget.
- `src/net.rs` — how an HTTP transport failure is reported to the guest.
- `src/mesh.rs`, `src/mesh_layout.rs` — the P3M1 byte layout, decoded and
  checked; its floating-point rules are handed to the caller in order.
- `app/` — the process around the library: files, ioctls, threads, floating
  point and the guest engine.

Verify with Verus; the tests under `tests/` run the library with its outside
crates linked.
