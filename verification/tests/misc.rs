use citra_engine::asset_provider::{get_asset_location, AssetType};
use citra_engine::citro2d::C2D_Color32;
use citra_engine::error::CitraError;
use citra_engine::graphics_manager::choose_surface_format;
use citra_engine::scene::Scene;
use citra_engine::scene_load::{SceneLoad, SceneLoadAction, SceneLoadEvent, SceneLoadStage};
use citra_engine::input::{InputBits, InputState};
use citra_engine::logger::N3dsLogFormatter;
use citra_engine::vbo::{push_decimal, vbo_slice_from_add, VboSlice};
use citra_engine::scene::light::{
    lut_connections, LUTInput, LightEnv, LightLUT, LightLUTCfg, LightLUTCfgs, LutId,
};
use citra_engine::scene::material::{Material, Shader, ShaderInput, ShaderInputDiscriminant, ShaderVersion};

#[test]
fn asset_locations() {
    assert_eq!(get_asset_location(AssetType::Model, "/models/a".to_string()), "romfs:/models/a.glb");
    assert_eq!(get_asset_location(AssetType::Scene, "/scenes/default".to_string()), "romfs:/scenes/default.json");
    assert_eq!(get_asset_location(AssetType::Shader, "/s".to_string()), "romfs:/s.shbin");
    assert_eq!(get_asset_location(AssetType::Texture, "/t".to_string()), "romfs:/t.t3x");
    assert_eq!(get_asset_location(AssetType::Music, "/m".to_string()), "romfs:/m.ogg");
}

#[test]
fn color_packing() {
    assert_eq!(C2D_Color32(0x12, 0x34, 0x56, 0x78), 0x1234_5678);
    assert_eq!(C2D_Color32(0xff, 0, 0, 0xff), 0xff00_00ff);
}

#[test]
fn start_button() {
    let start = InputBits::KeyStart.bits();
    assert!(InputState::new(0, start, 0).start_pressed());
    assert!(!InputState::new(start, 0, 0).start_pressed());
    assert!(!InputState::zero().start_pressed());
}

#[test]
fn log_tags_start_each_line() {
    let mut f = N3dsLogFormatter::new();
    assert_eq!(f.info("hello "), "[Info]: hello ");
    assert_eq!(f.warn("world\n"), "world\n");
    assert_eq!(f.error("next"), "[Error]: next");
    assert_eq!(f.debug("\n"), "\n");
    assert_eq!(f.debug("x"), "[Debug]: x");
}

#[test]
fn error_text_and_equality() {
    assert_eq!(
        CitraError::AssetNotFound("x".to_string()).to_string(),
        "Asset not found: x"
    );
    assert_eq!(CitraError::SceneVersionNotSupported.to_string(), "Scene Version Not Supported");
    assert_eq!(
        CitraError::PlatformError("p".to_string()).to_string(),
        "Platform Error: p"
    );
    assert_eq!(
        CitraError::MissingScriptArg("S".to_string(), "a".to_string()).to_string(),
        "Missing Script Arg: S: a"
    );
    assert!(CitraError::Other("a".to_string()) == CitraError::Other("b".to_string()));
    assert!(CitraError::Other("a".to_string()) != CitraError::ScriptError("a".to_string()));
}

fn shader(inputs: Vec<ShaderInputDiscriminant>) -> Shader {
    Shader {
        name: "s".to_string(),
        vertex_path: "/v".to_string(),
        geo_path: None,
        inputs,
        env_cfg: [None, None, None, None, None, None],
    }
}

#[test]
fn material_inputs_must_match_the_shader() {
    let m = Material {
        shader_file: "/s".to_string(),
        inputs: vec![ShaderInput::Texture2D("/t".to_string()), ShaderInput::Float(0)],
    };
    assert!(m
        .verify_inputs(&shader(vec![ShaderInputDiscriminant::Texture2D, ShaderInputDiscriminant::Float]))
        .is_ok());
    match m.verify_inputs(&shader(vec![ShaderInputDiscriminant::Texture2D])) {
        Err(CitraError::IncompatibleShaderInputs { mat_inputs, shader_inputs }) => {
            assert_eq!(mat_inputs, vec![ShaderInputDiscriminant::Texture2D, ShaderInputDiscriminant::Float]);
            assert_eq!(shader_inputs, vec![ShaderInputDiscriminant::Texture2D]);
        }
        _ => panic!("expected incompatible inputs"),
    }
    assert!(Shader::try_from(ShaderVersion::NotSupported).is_err());
    assert_eq!(ShaderInputDiscriminant::Vec3.to_string(), "Vec3");
}

#[test]
fn light_environment_and_lookup_tables() {
    let env = LightEnv::default();
    assert_eq!(env.light_slots(), [false; 8]);
    let mut cfgs = LightLUTCfgs::default();
    assert!(lut_connections(&cfgs).is_empty());
    let phong = LightLUTCfg {
        lut: LightLUT::Phong { factor: 0x4000_0000, negative: false },
        input: LUTInput::NormalXView,
    };
    cfgs.spotlight = Some(phong);
    cfgs.diffuse0 = Some(LightLUTCfg { input: LUTInput::CosOfPhi, ..phong });
    let conns = lut_connections(&cfgs);
    assert_eq!(conns.len(), 2);
    assert!(matches!(conns[0].0, LutId::D0));
    assert_eq!(conns[0].1.input, LUTInput::CosOfPhi);
    assert!(matches!(conns[1].0, LutId::Spotlight));
    assert_eq!(conns[1].1.input, LUTInput::NormalXView);
}

#[test]
fn buffer_list_outcomes() {
    assert_eq!(vbo_slice_from_add(3, 36).unwrap(), VboSlice { index: 3, size: 36 });
    assert_eq!(vbo_slice_from_add(0, 0).unwrap(), VboSlice { index: 0, size: 0 });
    let message = |r: Result<VboSlice, CitraError>| match r {
        Err(CitraError::PlatformError(m)) => m,
        _ => panic!("expected a platform error"),
    };
    assert_eq!(message(vbo_slice_from_add(-1, 4)), "Too Many Buffers");
    assert_eq!(message(vbo_slice_from_add(-2, 4)), "Invalid Memory Location");
    assert_eq!(message(vbo_slice_from_add(-3, 4)), "System Error: -3");
    assert_eq!(message(vbo_slice_from_add(-1234, 4)), "System Error: -1234");
    let mut s = String::new();
    push_decimal(&mut s, i32::MIN);
    assert_eq!(s, "-2147483648");
    let mut s = "n=".to_string();
    push_decimal(&mut s, 907);
    assert_eq!(s, "n=907");
}

#[test]
fn objects_are_enabled_unless_a_scene_says_otherwise() {
    assert!(citra_engine::scene::default_true());
}

#[test]
fn surface_format_prefers_the_first_srgb_format() {
    assert_eq!(choose_surface_format(&vec![false, true, true]), 1);
    assert_eq!(choose_surface_format(&vec![true, false]), 0);
}

#[test]
fn surface_format_falls_back_to_the_first_format() {
    assert_eq!(choose_surface_format(&vec![false, false, false]), 0);
    assert_eq!(choose_surface_format(&vec![false]), 0);
}

#[test]
fn a_scene_loads_models_then_materials_then_lights() {
    let mut scene = Scene::default();
    scene.models = vec!["/m1".to_string(), "/m2".to_string()];
    scene.materials = vec![Material {
        shader_file: "/s".to_string(),
        inputs: vec![ShaderInput::Texture2D("/t".to_string())],
    }];
    let (mut load, action) = SceneLoad::start(scene);
    assert!(matches!(action, SceneLoadAction::LoadModel(ref p) if p == "/m1"));
    let action = load.step(SceneLoadEvent::Done).unwrap();
    assert!(matches!(action, SceneLoadAction::LoadModel(ref p) if p == "/m2"));
    let action = load.step(SceneLoadEvent::Done).unwrap();
    assert!(matches!(action, SceneLoadAction::ReadShader(ref p) if p == "/s"));
    let read = shader(vec![ShaderInputDiscriminant::Texture2D]);
    match load.step(SceneLoadEvent::ShaderRead(read)).unwrap() {
        SceneLoadAction::LoadMaterial(m, s) => {
            assert_eq!(m.shader_file, "/s");
            assert_eq!(s.name, "/s");
            assert_eq!(s.vertex_path, "/v");
        }
        other => panic!("expected a material load, got {:?}", other),
    }
    assert_eq!(load.stage, SceneLoadStage::Material(0));
    assert!(matches!(load.step(SceneLoadEvent::Done).unwrap(), SceneLoadAction::PrepareLightLuts));
    assert!(matches!(load.step(SceneLoadEvent::Done).unwrap(), SceneLoadAction::SetLightMaterial));
    assert!(matches!(load.step(SceneLoadEvent::Done).unwrap(), SceneLoadAction::Finished));
}

#[test]
fn a_material_that_does_not_fit_its_shader_stops_the_load() {
    let mut scene = Scene::default();
    scene.materials = vec![Material {
        shader_file: "/s".to_string(),
        inputs: vec![ShaderInput::Texture2D("/t".to_string())],
    }];
    let (mut load, action) = SceneLoad::start(scene);
    assert!(matches!(action, SceneLoadAction::ReadShader(_)));
    let res = load.step(SceneLoadEvent::ShaderRead(shader(vec![])));
    assert!(matches!(res, Err(CitraError::IncompatibleShaderInputs { .. })));
}

#[test]
fn a_location_names_one_path_of_a_kind() {
    let a = get_asset_location(AssetType::Music, "/a".to_string());
    assert_eq!(a, "romfs:/a.ogg");
    assert_eq!(a, get_asset_location(AssetType::Music, "/a".to_string()));
    assert_ne!(a, get_asset_location(AssetType::Music, "/b".to_string()));
}
