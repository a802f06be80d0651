//! The steps of loading a scene: its models in order, then for each material
//! its shader and the material itself, then its light tables and light
//! material. The platform performs each step and reports back.
use vstd::prelude::*;

use crate::error::CitraError;
use crate::scene::Scene;
use crate::scene::material::{input_kinds, Material, Shader};

verus! {

/// Where loading a scene stands: the step it last asked for.
#[derive(Clone, Copy, Debug, PartialEq, Eq, Structural)]
pub enum SceneLoadStage {
    /// Loading model `i`.
    Model(usize),
    /// Reading the shader of material `j`.
    Shader(usize),
    /// Loading material `j`.
    Material(usize),
    /// Preparing the light lookup tables.
    LightLuts,
    /// Setting the light material.
    LightMaterial,
    /// Every step is done.
    Finished,
}

/// What loading a scene asks the platform to do next.
#[derive(Debug)]
pub enum SceneLoadAction {
    /// Load the model at this path.
    LoadModel(String),
    /// Read the shader data file at this path.
    ReadShader(String),
    /// Load the material with its shader.
    LoadMaterial(Material, Shader),
    /// Prepare the scene's light lookup tables.
    PrepareLightLuts,
    /// Set the scene's light material.
    SetLightMaterial,
    /// The scene is ready to run.
    Finished,
}

/// What the platform reports after a step.
#[derive(Debug)]
pub enum SceneLoadEvent {
    /// The step is done.
    Done,
    /// The shader that was read.
    ShaderRead(Shader),
}

/// The stage from material `j` on: its shader is read, or the light tables
/// are prepared once every material is loaded.
pub open spec fn material_stage(j: int, materials: nat) -> SceneLoadStage {
    if j < materials {
        SceneLoadStage::Shader(j as usize)
    } else {
        SceneLoadStage::LightLuts
    }
}

/// The first stage of loading a scene with `models` models and `materials`
/// materials.
pub open spec fn first_stage(models: nat, materials: nat) -> SceneLoadStage {
    if 0 < models {
        SceneLoadStage::Model(0)
    } else {
        material_stage(0, materials)
    }
}

/// The stage after stage `s` is done.
pub open spec fn next_stage(s: SceneLoadStage, models: nat, materials: nat) -> SceneLoadStage {
    match s {
        SceneLoadStage::Model(i) => if i + 1 < models {
            SceneLoadStage::Model((i + 1) as usize)
        } else {
            material_stage(0, materials)
        },
        SceneLoadStage::Shader(j) => SceneLoadStage::Material(j),
        SceneLoadStage::Material(j) => material_stage(j + 1, materials),
        SceneLoadStage::LightLuts => SceneLoadStage::LightMaterial,
        _ => SceneLoadStage::Finished,
    }
}

/// The order of a scene load: the models one after another from the first,
/// then each material in turn, its shader read and then the material loaded,
/// from the first material to the last, then the light tables, the light
/// material and the end; nothing is skipped.
pub proof fn lemma_load_visits_every_model_and_material(models: nat, materials: nat, i: nat, j: nat)
    ensures
        0 < models ==> first_stage(models, materials) == SceneLoadStage::Model(0),
        models == 0 && 0 < materials ==> first_stage(models, materials) == SceneLoadStage::Shader(0),
        models == 0 && materials == 0 ==> first_stage(models, materials) == SceneLoadStage::LightLuts,
        i + 1 < models && i < usize::MAX ==> next_stage(SceneLoadStage::Model(i as usize), models, materials)
            == SceneLoadStage::Model((i + 1) as usize),
        i + 1 == models && 0 < materials && i <= usize::MAX ==> next_stage(
            SceneLoadStage::Model(i as usize),
            models,
            materials,
        ) == SceneLoadStage::Shader(0),
        i + 1 == models && materials == 0 && i <= usize::MAX ==> next_stage(
            SceneLoadStage::Model(i as usize),
            models,
            materials,
        ) == SceneLoadStage::LightLuts,
        j <= usize::MAX ==> next_stage(SceneLoadStage::Shader(j as usize), models, materials)
            == SceneLoadStage::Material(j as usize),
        j + 1 < materials && j < usize::MAX ==> next_stage(
            SceneLoadStage::Material(j as usize),
            models,
            materials,
        ) == SceneLoadStage::Shader((j + 1) as usize),
        j + 1 == materials && j <= usize::MAX ==> next_stage(
            SceneLoadStage::Material(j as usize),
            models,
            materials,
        ) == SceneLoadStage::LightLuts,
        next_stage(SceneLoadStage::LightLuts, models, materials) == SceneLoadStage::LightMaterial,
        next_stage(SceneLoadStage::LightMaterial, models, materials) == SceneLoadStage::Finished,
        next_stage(SceneLoadStage::Finished, models, materials) == SceneLoadStage::Finished,
{
}

/// The stage refers to a model or material of the scene.
pub open spec fn stage_in(s: SceneLoadStage, scene: Scene) -> bool {
    match s {
        SceneLoadStage::Model(i) => i < scene.models@.len(),
        SceneLoadStage::Shader(j) => j < scene.materials@.len(),
        SceneLoadStage::Material(j) => j < scene.materials@.len(),
        _ => true,
    }
}

/// The event that answers the step of stage `s`: the shader read for a
/// shader stage, `Done` otherwise.
pub open spec fn answers(s: SceneLoadStage, e: SceneLoadEvent) -> bool {
    match s {
        SceneLoadStage::Shader(_) => e is ShaderRead,
        _ => e is Done,
    }
}

/// `a` is the step of stage `s` other than loading a material: the model or
/// shader file it names, or the light tables, light material or the end.
pub open spec fn asks(s: SceneLoadStage, scene: Scene, a: SceneLoadAction) -> bool {
    match s {
        SceneLoadStage::Model(i) => a matches SceneLoadAction::LoadModel(p) && p@
            == scene.models@[i as int]@,
        SceneLoadStage::Shader(j) => a matches SceneLoadAction::ReadShader(p) && p@
            == scene.materials@[j as int].shader_file@,
        SceneLoadStage::Material(_) => a is LoadMaterial,
        SceneLoadStage::LightLuts => a is PrepareLightLuts,
        SceneLoadStage::LightMaterial => a is SetLightMaterial,
        SceneLoadStage::Finished => a is Finished,
    }
}

/// Loading a scene: the scene and the step it last asked for.
pub struct SceneLoad {
    pub scene: Scene,
    pub stage: SceneLoadStage,
}

impl SceneLoad {
    /// The step of the current stage, for a stage that loads no material.
    fn action(&self) -> (a: SceneLoadAction)
        requires
            stage_in(self.stage, self.scene),
            !(self.stage is Material),
        ensures
            asks(self.stage, self.scene, a),
    {
        match self.stage {
            SceneLoadStage::Model(i) => SceneLoadAction::LoadModel(self.scene.models[i].clone()),
            SceneLoadStage::Shader(j) => SceneLoadAction::ReadShader(
                self.scene.materials[j].shader_file.clone(),
            ),
            SceneLoadStage::LightLuts => SceneLoadAction::PrepareLightLuts,
            SceneLoadStage::LightMaterial => SceneLoadAction::SetLightMaterial,
            _ => SceneLoadAction::Finished,
        }
    }

    /// The stage from material `j` on.
    fn at_material(&mut self, j: usize)
        requires
            j <= old(self).scene.materials@.len(),
        ensures
            final(self).scene == old(self).scene,
            final(self).stage == material_stage(j as int, old(self).scene.materials@.len()),
    {
        if j < self.scene.materials.len() {
            self.stage = SceneLoadStage::Shader(j);
        } else {
            self.stage = SceneLoadStage::LightLuts;
        }
    }

    /// Starts loading a scene whose lights are resolved: its first model,
    /// else its first material's shader, else its light tables.
    pub fn start(scene: Scene) -> (out: (SceneLoad, SceneLoadAction))
        ensures
            out.0.scene == scene,
            out.0.stage == first_stage(scene.models@.len(), scene.materials@.len()),
            stage_in(out.0.stage, out.0.scene),
            asks(out.0.stage, out.0.scene, out.1),
    {
        let mut load = SceneLoad { scene, stage: SceneLoadStage::Finished };
        if load.scene.models.len() > 0 {
            load.stage = SceneLoadStage::Model(0);
        } else {
            load.at_material(0);
        }
        let a = load.action();
        (load, a)
    }

    /// Takes the platform's report on the last step and asks for the next:
    /// the models in order, then each material's shader and the material,
    /// then the light tables and the light material. A material is loaded
    /// with the shader read for it, named after the material's shader file;
    /// a material whose inputs do not fit that shader is an error.
    pub fn step(&mut self, event: SceneLoadEvent) -> (res: Result<SceneLoadAction, CitraError>)
        requires
            stage_in(old(self).stage, old(self).scene),
            answers(old(self).stage, event),
        ensures
            final(self).scene == old(self).scene,
            match (old(self).stage, event) {
                (SceneLoadStage::Shader(j), SceneLoadEvent::ShaderRead(read)) => {
                    let m = old(self).scene.materials@[j as int];
                    if input_kinds(m.inputs@) == read.inputs@ {
                        &&& final(self).stage == SceneLoadStage::Material(j)
                        &&& res matches Ok(SceneLoadAction::LoadMaterial(mat, sh))
                        &&& mat.shader_file@ == m.shader_file@
                        &&& mat.inputs@ == m.inputs@
                        &&& sh.name@ == m.shader_file@
                        &&& sh.vertex_path == read.vertex_path
                        &&& sh.geo_path == read.geo_path
                        &&& sh.inputs@ == read.inputs@
                        &&& sh.env_cfg == read.env_cfg
                    } else {
                        &&& final(self).stage == old(self).stage
                        &&& res matches Err(CitraError::IncompatibleShaderInputs { mat_inputs, shader_inputs })
                        &&& mat_inputs@ == input_kinds(m.inputs@)
                        &&& shader_inputs@ == read.inputs@
                    }
                },
                _ => {
                    &&& final(self).stage == next_stage(
                        old(self).stage,
                        old(self).scene.models@.len(),
                        old(self).scene.materials@.len(),
                    )
                    &&& res matches Ok(a) && asks(final(self).stage, final(self).scene, a)
                },
            },
            stage_in(final(self).stage, final(self).scene),
    {
        match self.stage {
            SceneLoadStage::Model(i) => {
                let n = self.scene.models.len();
                if i + 1 < n {
                    self.stage = SceneLoadStage::Model(i + 1);
                } else {
                    self.at_material(0);
                }
                Ok(self.action())
            },
            SceneLoadStage::Shader(j) => {
                let mut shader = match event {
                    SceneLoadEvent::ShaderRead(s) => s,
                    SceneLoadEvent::Done => {
                        return Ok(SceneLoadAction::Finished);
                    },
                };
                let material = &self.scene.materials[j];
                shader.name = material.shader_file.clone();
                match material.verify_inputs(&shader) {
                    Ok(()) => {
                        self.stage = SceneLoadStage::Material(j);
                        Ok(SceneLoadAction::LoadMaterial(material.duplicate(), shader))
                    },
                    Err(e) => Err(e),
                }
            },
            SceneLoadStage::Material(j) => {
                let n = self.scene.materials.len();
                proof {
                    assert(j < n);
                }
                self.at_material(j + 1);
                Ok(self.action())
            },
            SceneLoadStage::LightLuts => {
                self.stage = SceneLoadStage::LightMaterial;
                Ok(self.action())
            },
            _ => {
                self.stage = SceneLoadStage::Finished;
                Ok(self.action())
            },
        }
    }
}

} // verus!
