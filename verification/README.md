# kludgine (frame batching)

The batching core of a GPU 2D renderer, verified with Verus.

- `src/geometry.rs` — points, rectangles and vertices in integer units.
- `src/maps.rs` — the `ahash::AHashMap`s of a frame, behind trusted wrappers.
- `src/vertices.rs` — the vertex buffer, storing each distinct vertex once.
- `src/pipeline.rs` — push constants and shader flags; `f32` values as bit patterns.
- `src/blit.rs` — the textured quad that copies part of a texture.
- `src/render.rs` — `Rendering` (a frame) and `Renderer` (which records draws).
- `src/plan.rs` — the render-pass calls that replay a frame.
- `src/laws.rs` — properties that span operations.
- `app/` — the `wgpu` side: buffer upload and execution of the render steps.
