# gamezap

A small game engine built around an entity–component scene.

`src/` is the verified library (Verus). It holds the engine's decisions as
plain values, each with a contract:

- `ecs::scene` — the scene: entities with unique, increasing identifiers;
  components kept in rendering order; materials numbered by creation; the
  pipelines their shaders need; attached workloads.
- `ecs::concepts` — named per-component data shared between components.
- `ecs::builtin_actions` — enabling, disabling and flipping entities and
  components, and handing workloads to the scene.
- `ecs::components` — text, physics (impulses) and mesh (OBJ vertex layout).
- `materials`, `pipeline`, `compute` — bind group layouts, material kinds and
  the assets of compute shaders, as plans that the GPU code carries out.
- `camera`, `engine_management`, `renderer`, `lib.rs` — key handling of the
  free camera, surface format choice, bind group numbering, resizing and the
  main loop's answer to window events.

Laws that relate several functions are public proof functions whose names
start with `law_`.

`app/` is the GPU and file side (wgpu, tobj, image, tokio): it builds the
buffers, textures and pipelines that the library plans, and runs the
asynchronous updates. Only the enabled components of enabled entities are
updated, as the library's `Scene::components_to_update` lists them; mesh
components record their draw calls into the render pass of their material.
Textures are decoded with the `image` crate.

Not part of `app/`: a window and input layer, text rendering (the library's
`visible_text_buffers` decides which text buffers a renderer would draw),
antialiasing, the immediate-mode UI, and the camera and transform
components.

`tests/` runs the library on concrete values.
