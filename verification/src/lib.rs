//! A scene-graph game engine core: scene objects, node paths, materials,
//! lights, input state, asset locations and the GLB container format.
use vstd::prelude::*;

pub mod asset_provider;
pub mod audio_manager;
pub mod citro2d;
pub mod engine;
pub mod error;
pub mod glb;
pub mod gltf;
pub mod graphics_manager;
pub mod input;
pub mod logger;
pub mod material_bank;
pub mod math;
pub mod model;
pub mod scene;
pub mod scene_load;
pub mod script;
pub mod scripts;
pub mod vbo;

verus! {

} // verus!
