# solar_renderer

A software solar-system renderer (raylib window, procedural shaders, a
depth-tested framebuffer) split into a verified library and the program
around it.

- `src/` — the verified library (Verus):
  - `framebuffer` — screen bounds, pixel addressing and the z-buffer; depths
    are `u32` keys made from `f32` bit patterns, ordered like the
    sign-magnitude values of those patterns (which is float order for every
    pattern but NaN).
  - `warp` — the camera warp destination list and its navigation.
  - `obj`, `pipeline` — joining OBJ meshes, expanding indices, grouping
    per-vertex results into triangles.
  - `noise` — the integer decisions inside the noise functions (octave clamp,
    gradient choice, simplex corner order).
  - `skybox`, `orbit_renderer` — which pixels stars and orbit markers light.
  - `input` — keyboard decisions of the frame loop.
- `app/` — the program: window and input (raylib), file loading (tobj),
  threads (rayon), and all floating-point geometry, lighting and shading.
- `tests/` — tests of the library.
