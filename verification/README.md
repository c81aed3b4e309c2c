# rust_try_lib

The bookkeeping core of a small game engine, verified with Verus, and the
program around it.

`src/` is the verified library:

- `inputs`: button tables (`Buttons`), keyboards and cursors per window, the
  devices not tied to a window with their primary keyboard and mouse
  (`DeviceInputs`), what an unidentified device learns from an event, and
  the rules a camera controller reads from them.
- `input` and `globals`: the process-wide key tables that queue key events
  and settle them at frame boundaries.
- `application`: the event registry, what each event of the two event loops
  leads to, and what a round of the single-window loop does to the key
  tables.
- `graphics`: instanced batching of meshes and the byte ranges their
  instances take in the instance buffer.
- `system`: which registered tasks a backend's loop runs for each event.
- `utils`, `math`: closure holders and shared traits.

Each module states its contracts over views (`@`) and proves the laws that
tie its operations together (`law_*` proof functions).

`app/` is the program: the `winit` event loop, the `wgpu` renderer, the
camera and the floating-point mouse and clock state, and a Vulkan instance
on `ash`. It turns outside events into the plain values the library takes.
