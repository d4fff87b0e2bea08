# gk4

A real-time 3-D scene viewer (glium, egui, cgmath): five cameras, Phong/Gouraud
shading, fog, a day/night cycle, spotlight headlights on a moving object, a grid
floor and an on-demand OBJ car model.

## Layout

- `src/` — the verified library (Verus):
  - `light.rs` — light kinds and their shader codes; which light fills which shader
    slot (object shaders, grid shader), which lights get markers, which light is the
    sun, which lights are drawn given the panel switches.
  - `primitives.rs` — triangle index lists of the sphere, torus, plane, cone and cube,
    with proofs that every index names an existing vertex.
  - `mesh.rs` — merging the sub-meshes of a loaded model into one group per material,
    with the index shift that keeps every index pointing at the same vertex.
  - `controls.rs` — key commands, held keys, the per-frame movement plan.
  - `camera.rs` — which camera renders, and the free-camera handover.
  - `scene.rs` — loading and unloading the car model and the normal maps on demand.
- `app/` — the program: window, event loop, GPU resources, egui panel, file loading
  and all floating-point math (cameras, lights, vertices, animation).
- `tests/` — tests of the library.
