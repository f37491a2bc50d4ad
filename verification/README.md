# ice_spar

A small wgpu model viewer, split in two:

- `src/` is the verified library (Verus): keyboard/mouse input state and the event
  loop's decisions, window resize handling, vertex-buffer and bind-group layouts,
  texture data preparation (texel conversion, image decoding, upload layouts,
  material slots and fallbacks), mesh index assembly, the depth-first walk over a
  model's scene graph that pairs meshes with materials, material texture and
  property lookup, the camera's per-frame update steps and the render pass's
  command list. Each public function states what it returns; the `lemma_*` proof
  functions state properties that span several functions.
- `app/` is the program around it: windowing and events (winit), GPU work (wgpu),
  model loading (russimp-ng) and the floating-point camera and matrix math.
- `tests/` runs the library on concrete values.
