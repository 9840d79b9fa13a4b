# ash-voxels

A prototype Vulkan voxel renderer, split into a verified library and the
program around it.

- `src/` is the library, verified with Verus:
  - `assets`: the fixed chunk layout (64x64x64 voxels, 512 regions of 8x8x8)
    and its region and leaf occupancy bitmasks, with the laws that marking a
    voxel adds exactly that voxel to the occupied set and keeps the region
    mask consistent.
  - `config`: the launch arguments (`--headless-png PATH --delay-ms MS`).
  - `render`: the renderer's sizes, checks and choices: RGBA byte lengths,
    alignment, shader binding table packing, host buffer transfers, device
    and queue family selection, swapchain and output formats, SPIR-V decoding.
  - `terrain`, `input`, `upscaling`, `text`, `error`.
- `app/` is the program: the `winit` window, the `bevy_ecs` world, the
  floating-point camera and scene math, and the Vulkan calls made through
  `ash` and `gpu-allocator`. It calls the library for every decision above.
- `tests/` exercises the library on concrete values.
