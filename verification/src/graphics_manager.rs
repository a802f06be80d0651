//! What a platform provides to the engine to draw scenes.
use vstd::prelude::*;

use crate::error::CitraError;
use crate::scene::Scene;
use crate::scene::light::{LightLUTCfgs, LightMaterial};
use crate::scene::material::{Material, Shader};

verus! {

/// The drawing side of a platform: it loads the models and materials that a
/// scene names and draws the scene from its cameras each frame.
pub trait GraphicsManager {
    fn load_material(&mut self, material: Material, shader: Shader) -> Result<(), CitraError>;

    fn load_model(&mut self, model: &str) -> Result<(), CitraError>;

    fn set_light_material(&mut self, mat: &LightMaterial) -> Result<(), CitraError>;

    fn prepare_light_luts(&mut self, cfgs: &LightLUTCfgs) -> Result<(), CitraError>;

    fn unload_all_materials(&mut self);

    fn unload_all_models(&mut self);

    /// Draws the scene; the cameras are objects of its graph.
    fn update(&mut self, scene: &mut Scene, top_camera: Option<usize>, bottom_camera: Option<usize>);

    fn wait_for_vblank(&self);
}

/// The position of the first sRGB format among formats whose sRGB flags are
/// `srgb`, or the first position where none is sRGB.
pub open spec fn surface_format_index(srgb: Seq<bool>) -> int {
    if exists|i: int| 0 <= i < srgb.len() && srgb[i] {
        choose|i: int| 0 <= i < srgb.len() && srgb[i] && forall|j: int| 0 <= j < i ==> !srgb[j]
    } else {
        0
    }
}

/// Chooses the surface format: the first sRGB one, else the first one. The
/// surface offers at least one format.
pub fn choose_surface_format(srgb: &Vec<bool>) -> (i: usize)
    requires
        srgb@.len() > 0,
    ensures
        i < srgb@.len(),
        i == surface_format_index(srgb@),
{
    let n = srgb.len();
    for k in 0..n
        invariant
            n == srgb@.len(),
            forall|j: int| 0 <= j < k ==> !srgb@[j],
    {
        if srgb[k] {
            proof {
                let c = choose|i: int|
                    0 <= i < srgb@.len() && srgb@[i] && forall|j: int| 0 <= j < i ==> !srgb@[j];
                assert(0 <= k < srgb@.len() && srgb@[k as int] && forall|j: int|
                    0 <= j < k ==> !srgb@[j]);
                if c < k {
                    assert(!srgb@[c]);
                }
                if c > k {
                    assert(!srgb@[k as int]);
                }
            }
            return k;
        }
    }
    0
}

} // verus!
