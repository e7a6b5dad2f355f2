# tone

The verified core of the Tone photo editor's renderer.

- `src/` (Verus): preview sizing with an exact integer model of the
  binary64 arithmetic it is specified in (`render/binary64.rs`,
  `render/preview.rs`), full-resolution tiling (`render/tiles.rs`), image
  decoding through the `image` crate (`render/texture.rs`), the shader ids of
  the grading modes (`render/params.rs`, `color.rs`) and the bookkeeping of a
  render session (`render/engine.rs`).
- `app/`: the Tauri commands, the wgpu renderer that carries out what a
  `RenderSession` decides, and the floating-point colour model.
- `tests/`: executable tests of the library.
