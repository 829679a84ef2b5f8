# bevy_magicleap_one

The platform logic of a Bevy runtime for the Magic Leap One headset, verified
with Verus.

- `src/` — the verified library:
  - `app_state` — the lifecycle states, the callback table handed to the
    device, and the frame loop's decision for each turn;
  - `camera` — the camera roles and their virtual camera indices, and the
    cameras spawned for the render targets;
  - `frame` — the texture view handles of the render targets and of each
    frame, and the semaphores signalled when a frame ends;
  - `logging` — the routing of tracing levels onto the device's log levels;
  - `log_pipe` — the reader that turns the redirected standard output into
    log messages;
  - `asset_io` — the asset source of a device without readable asset files.
- `app/` — the C entry point, the Bevy plugin and frame loop, the device and
  Vulkan calls, and the trait impls of Bevy and tracing over the library.
- `tests/` — tests of the library on concrete values.
