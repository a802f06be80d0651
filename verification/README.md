# citra_engine

A scene-graph game engine core for the Nintendo 3DS, with its logic verified
by Verus.

## Layout

- `src/` — the verified library:
  - `scene/` — the scene graph (objects in an arena, parent and child links,
    cached hierarchy and visibility state, dirty flags, lookup by node path,
    subtree copies), node paths, materials and shaders, lights, scenes.
  - `engine.rs` — the engine's state (the running scene, its cameras, the
    queued scene, the buttons) and the main loop as a step machine: the
    platform performs each action it asks for and reports back; when to stop,
    when to load the queued scene, which script hooks run on each object.
  - `glb.rs`, `gltf.rs`, `model.rs` — the GLB container, the parts of the
    glTF document that loading reads, and the loading of the vertex and index
    data of every primitive of a model.
  - `scene_load.rs` — the steps of loading a scene: models, then each
    material's shader and the material, then the light tables and material.
  - `material_bank.rs` — the books of loaded shaders, textures and materials
    and the steps of loading a material.
  - `scripts.rs`, `script.rs` — the engine's scripts and their arguments.
  - `asset_provider.rs`, `audio_manager.rs`, `graphics_manager.rs`,
    `input.rs`, `logger.rs` — what a platform provides, and the parts of it
    that are plain logic (asset locations, log tags, button masks).
  - `error.rs`, `vbo.rs`, `citro2d.rs`, `math.rs` — errors and small helpers.
- `tests/` — tests of the library.
- `app/` — a desktop program that reads assets from a directory, parses scene
  and shader JSON, runs the main loop and draws nothing; it also holds the
  desktop window's GPU setup.

Floating-point values (positions, colors, camera parameters) are kept in the
library as their IEEE-754 bit patterns.
