# wgpu_pbr

The decisions and computations of a small deferred PBR renderer and its
editor that need no floating point, each with a proved contract. The GPU work
(pipelines, passes, uploads), the window, the GUI toolkits and the demo scenes
are not part of this crate; the library takes what they would read as plain
values and returns what they would act on.

Layout of `src/`:

- `asset/` — asset paths; the `Assets<T>` store of shared values found by
  UUID handle or by name (`uuid_text.rs` draws and formats the UUIDs);
  texture decoding and transparency, model-file kinds, mesh index assembly
  (`load.rs`); the six faces of a cube map (`cubemap.rs`); laws relating the
  store's operations (`laws.rs`).
- `render/` — render-target size, alpha modes, the colour-target ping-pong,
  glTF texel widening, mip level counts, the post-processing texture pair,
  point lights by entity, the material layout registries and how a PBR
  material's values are chosen.
- `material/` — jump-flood step widths and pass chaining (`outline.rs`);
  grouping outlined entities by outline type and keeping per-type state in
  step with the types in use (`outline_groups.rs`, `outline_layers.rs`).
- `editor/` — the world-tree flattening, the editor's message handling and
  colour parsing (`logic.rs`), their data types, laws over them (`laws.rs`),
  the rows and marks the panels show (`tree_view.rs`), the scene hierarchy
  panel (`hierarchy.rs`, `hierarchy_laws.rs`), property
  windows, texture-preview layer browsing, dock panes, theme colours.
- `input.rs`, `engine/input.rs`, `control.rs` — keyboard and mouse state,
  scene focus and the cursor that goes with it.
- `text.rs` — Unicode whitespace trimming, comma splitting and hexadecimal
  bytes as the standard library performs them.

Values of type `f32` that the logic only carries (panel widths, cursor
positions, material factors) are held as their bit patterns (`FloatBits`).
`app/` is a small program that decodes texture files with the library; it
also holds the floating-point pieces that sit next to the library's logic
(camera and transform maths, splitter widths, colour channels, spherical
harmonics).

The tests under `tests/` exercise the library on concrete values.
