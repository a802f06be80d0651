use citra_engine::material_bank::{LoadRequest, MaterialLoad, MaterialRegistry, MAX_TEXTURES};

fn paths(v: &[&str]) -> Vec<String> {
    v.iter().map(|s| s.to_string()).collect()
}

#[test]
fn loads_shader_then_textures() {
    let mut reg = MaterialRegistry::new();
    let (mut load, req) = MaterialLoad::start(&reg, "romfs:/shaders/a.shbin", paths(&["t1", "t2"]));
    assert!(matches!(req, LoadRequest::Shader));
    let req = load.shader_result(&mut reg, Some("shader_a".to_string()));
    match req {
        LoadRequest::Texture(p) => assert_eq!(p, "t1"),
        _ => panic!("expected a texture request"),
    }
    let req = load.texture_result(&mut reg, true);
    match req {
        LoadRequest::Texture(p) => assert_eq!(p, "t2"),
        _ => panic!("expected a texture request"),
    }
    let req = load.texture_result(&mut reg, true);
    assert!(matches!(req, LoadRequest::Done));
    load.finish(&mut reg);
    assert_eq!(reg.shader_names, vec!["shader_a".to_string()]);
    assert_eq!(reg.texture_names, paths(&["t1", "t2"]));
    assert_eq!(reg.materials.len(), 1);
    assert_eq!(reg.materials[0].shader, Some(0));
    assert_eq!(reg.materials[0].textures, vec![0, 1]);
    assert_eq!(reg.bind_plan(0), (Some(0), vec![0, 1]));
    assert_eq!(MAX_TEXTURES, 4);
}

#[test]
fn missing_shader_is_used_when_loading_fails() {
    let mut reg = MaterialRegistry::new();
    let (mut load, _) = MaterialLoad::start(&reg, "s", paths(&["t1"]));
    assert!(matches!(load.shader_result(&mut reg, None), LoadRequest::Done));
    load.finish(&mut reg);
    assert_eq!(reg.materials[0].shader, None);
    assert!(reg.materials[0].textures.is_empty());
    assert!(reg.texture_names.is_empty());
}

#[test]
fn failed_texture_drops_the_material_to_the_missing_shader() {
    let mut reg = MaterialRegistry::new();
    let (mut load, _) = MaterialLoad::start(&reg, "s", paths(&["t1", "t2"]));
    load.shader_result(&mut reg, Some("s".to_string()));
    load.texture_result(&mut reg, true);
    assert!(matches!(load.texture_result(&mut reg, false), LoadRequest::Done));
    load.finish(&mut reg);
    assert_eq!(reg.materials[0].shader, None);
    assert!(reg.materials[0].textures.is_empty());
    assert_eq!(reg.texture_names, paths(&["t1"]));
}

#[test]
fn loaded_shader_and_textures_are_reused() {
    let mut reg = MaterialRegistry::new();
    let (mut load, _) = MaterialLoad::start(&reg, "s", paths(&["t1"]));
    load.shader_result(&mut reg, Some("s".to_string()));
    load.texture_result(&mut reg, true);
    load.finish(&mut reg);
    // The shader named "s" is found and the texture "t1" is bound again;
    // only "t2" is still to load.
    let (mut load, req) = MaterialLoad::start(&reg, "s", paths(&["t1", "t2", "t1"]));
    match req {
        LoadRequest::Texture(p) => assert_eq!(p, "t2"),
        _ => panic!("expected a texture request"),
    }
    assert_eq!(load.shader, Some(0));
    assert_eq!(load.textures, vec![0]);
    assert_eq!(load.next, 1);
    assert!(matches!(load.texture_result(&mut reg, true), LoadRequest::Done));
    assert_eq!(load.textures, vec![0, 1, 0]);
    load.finish(&mut reg);
    assert_eq!(reg.shader_names.len(), 1);
    assert_eq!(reg.texture_names, paths(&["t1", "t2"]));
    assert_eq!(reg.materials.len(), 2);
    assert_eq!(reg.materials[1].shader, Some(0));
    assert_eq!(reg.materials[1].textures, vec![0, 1, 0]);
    // Every texture cached: nothing to load.
    let (load, req) = MaterialLoad::start(&reg, "s", paths(&["t2"]));
    assert!(matches!(req, LoadRequest::Done));
    assert_eq!(load.textures, vec![1]);
    // A material without textures keeps the found shader.
    let (load, req) = MaterialLoad::start(&reg, "s", vec![]);
    assert!(matches!(req, LoadRequest::Done));
    assert_eq!(load.shader, Some(0));
    reg.unload_all();
    assert!(reg.shader_names.is_empty());
    assert!(reg.materials.is_empty());
    assert_eq!(reg.texture_names.len(), 2);
}

#[test]
fn loaded_shader_then_cached_texture() {
    let mut reg = MaterialRegistry::new();
    let (mut load, _) = MaterialLoad::start(&reg, "a", paths(&["t"]));
    load.shader_result(&mut reg, Some("a".to_string()));
    load.texture_result(&mut reg, true);
    load.finish(&mut reg);
    let (mut load, req) = MaterialLoad::start(&reg, "b", paths(&["t"]));
    assert!(matches!(req, LoadRequest::Shader));
    assert!(matches!(load.shader_result(&mut reg, Some("b".to_string())), LoadRequest::Done));
    assert_eq!(load.shader, Some(1));
    assert_eq!(load.textures, vec![0]);
}
