use citra_engine::error::CitraError;
use citra_engine::glb::{read_header, ChunkHeader, BIN_CHUNK_MAGIC, GLTF_MAGIC, JSON_CHUNK_MAGIC};
use citra_engine::gltf::{
    decode_u16s, decode_u32s, get_accessor_component_type, get_accessor_size,
    parse_gltf, read_accessor_bytes, ComponentType, GltfAccessor, GltfBufferView, GltfDoc, GltfMaterial,
    GltfMesh, GltfPrimitive, Semantic,
};
use citra_engine::model::{find_attribute, load_from_glb, load_model, load_primitive, IndexData, ModelLoad};

fn push_u32(out: &mut Vec<u8>, v: u32) {
    out.extend_from_slice(&v.to_le_bytes());
}

/// Positions (2 vertices), normals, texture coordinates and three 16-bit
/// indices, laid out one after the other.
fn bin_data() -> Vec<u8> {
    let mut bin = Vec::new();
    for v in 1..=6u32 {
        push_u32(&mut bin, v);
    }
    for v in 11..=16u32 {
        push_u32(&mut bin, v);
    }
    for v in 21..=24u32 {
        push_u32(&mut bin, v);
    }
    for v in [0u16, 1, 0x0102] {
        bin.extend_from_slice(&v.to_le_bytes());
    }
    bin
}

fn file_and_bin() -> (Vec<u8>, ChunkHeader) {
    let json = b"{}".to_vec();
    let bin = bin_data();
    let mut body = Vec::new();
    push_u32(&mut body, json.len() as u32);
    push_u32(&mut body, JSON_CHUNK_MAGIC);
    body.extend_from_slice(&json);
    push_u32(&mut body, bin.len() as u32);
    push_u32(&mut body, BIN_CHUNK_MAGIC);
    body.extend_from_slice(&bin);
    let mut file = Vec::new();
    push_u32(&mut file, GLTF_MAGIC);
    push_u32(&mut file, 2);
    push_u32(&mut file, (12 + body.len()) as u32);
    file.extend_from_slice(&body);
    let (_, b) = read_header(&file, "m").unwrap();
    (file, b)
}

fn accessor(count: u64, view: Option<usize>, ct: Option<ComponentType>) -> GltfAccessor {
    GltfAccessor {
        count,
        buffer_view: view,
        component_type: ct,
    }
}

fn primitive(material: Option<usize>, indices: Option<usize>) -> GltfPrimitive {
    GltfPrimitive {
        attributes: vec![
            (Semantic::Positions, 0),
            (Semantic::Normals, 1),
            (Semantic::TexCoords(0), 2),
        ],
        indices,
        material,
    }
}

fn doc(meshes: Vec<GltfMesh>) -> GltfDoc {
    GltfDoc {
        asset_version: "2.0".to_string(),
        accessors: vec![
            accessor(2, Some(0), Some(ComponentType::F32)),
            accessor(2, Some(1), Some(ComponentType::F32)),
            accessor(2, Some(2), Some(ComponentType::F32)),
            accessor(3, Some(3), Some(ComponentType::U16)),
            accessor(3, Some(3), Some(ComponentType::U32)),
            accessor(3, None, Some(ComponentType::U8)),
            accessor(3, Some(3), None),
            accessor(6, Some(3), Some(ComponentType::U8)),
        ],
        buffer_views: vec![
            GltfBufferView { byte_offset: Some(0) },
            GltfBufferView { byte_offset: Some(24) },
            GltfBufferView { byte_offset: Some(48) },
            GltfBufferView { byte_offset: Some(64) },
        ],
        meshes,
        materials: vec![
            GltfMaterial { base_color_tex_coord: Some(0) },
            GltfMaterial { base_color_tex_coord: None },
        ],
    }
}

fn message<T>(res: Result<T, CitraError>) -> String {
    match res {
        Err(CitraError::PlatformError(m)) => m,
        _ => panic!("expected a platform error"),
    }
}

#[test]
fn decodes_little_endian_words() {
    assert_eq!(decode_u32s(&[1, 0, 0, 0, 0, 1, 0, 0]), vec![1u32, 256]);
    assert_eq!(decode_u16s(&[2, 1, 0xff, 0]), vec![0x0102u16, 0xff]);
    assert_eq!(decode_u32s(&[]), Vec::<u32>::new());
}

#[test]
fn accessor_size_and_type() {
    let d = doc(vec![]);
    assert_eq!(get_accessor_size(&d, 3).unwrap(), 3);
    assert_eq!(message(get_accessor_size(&d, 99)), "Could not find accessor");
    assert_eq!(
        get_accessor_component_type(&d, 4).unwrap(),
        Some(ComponentType::U32)
    );
    assert_eq!(message(get_accessor_component_type(&d, 99)), "Accessor does not exist");
}

#[test]
fn accessor_bytes_and_their_errors() {
    let (file, bin) = file_and_bin();
    let bytes = read_accessor_bytes(&doc(vec![]), &bin, &file, 3, 3, 2, "none").unwrap();
    assert_eq!(bytes, vec![0, 0, 1, 0, 2, 1]);
    let mut d = doc(vec![]);
    assert_eq!(
        message(read_accessor_bytes(&d, &bin, &file, 99, 1, 1, "gone")),
        "gone"
    );
    assert_eq!(
        message(read_accessor_bytes(&d, &bin, &file, 5, 1, 1, "gone")),
        "Accessor does not contain buffer view idx"
    );
    assert_eq!(
        message(read_accessor_bytes(&d, &bin, &file, 7, 7, 1, "gone")),
        "failed to fill whole buffer"
    );
    d.accessors[0].buffer_view = Some(10);
    assert_eq!(
        message(read_accessor_bytes(&d, &bin, &file, 0, 1, 1, "gone")),
        "Buffer View index does not exist"
    );
    d.buffer_views[0].byte_offset = None;
    d.accessors[0].buffer_view = Some(0);
    assert_eq!(
        message(read_accessor_bytes(&d, &bin, &file, 0, 1, 1, "gone")),
        "Buffer View does not have an offset"
    );
}

#[test]
fn attribute_lookup() {
    let p = primitive(None, None);
    assert_eq!(find_attribute(&p, Semantic::Normals), Some(1));
    assert_eq!(find_attribute(&p, Semantic::TexCoords(1)), None);
}

#[test]
fn loads_a_primitive() {
    let (file, bin) = file_and_bin();
    let d = doc(vec![]);
    let data = load_primitive(&d, &bin, &file, &primitive(Some(0), Some(3))).unwrap();
    assert_eq!(data.positions, vec![1, 2, 3, 4, 5, 6]);
    assert_eq!(data.normals, vec![11, 12, 13, 14, 15, 16]);
    assert_eq!(data.texcoords, Some(vec![21, 22, 23, 24]));
    match data.indices {
        IndexData::U16Bit(v) => assert_eq!(v, vec![0, 1, 0x0102]),
        _ => panic!("expected 16-bit indices"),
    }
}

#[test]
fn texcoords_only_through_a_base_color_texture() {
    let (file, bin) = file_and_bin();
    let d = doc(vec![]);
    let no_material = load_primitive(&d, &bin, &file, &primitive(None, None)).unwrap();
    assert_eq!(no_material.texcoords, None);
    assert!(matches!(no_material.indices, IndexData::NotPresent));
    let no_texture = load_primitive(&d, &bin, &file, &primitive(Some(1), None)).unwrap();
    assert_eq!(no_texture.texcoords, None);
    let bad_material = load_primitive(&d, &bin, &file, &primitive(Some(7), None)).unwrap();
    assert_eq!(bad_material.texcoords, None);
}

#[test]
fn eight_bit_indices() {
    let (file, bin) = file_and_bin();
    let d = doc(vec![]);
    let data = load_primitive(&d, &bin, &file, &primitive(None, Some(7))).unwrap();
    match data.indices {
        IndexData::U8Bit(v) => assert_eq!(v, vec![0, 0, 1, 0, 2, 1]),
        _ => panic!("expected 8-bit indices"),
    }
}

#[test]
fn primitive_errors() {
    let (file, bin) = file_and_bin();
    let d = doc(vec![]);
    let mut p = primitive(None, None);
    p.attributes.remove(0);
    assert_eq!(message(load_primitive(&d, &bin, &file, &p)), "Position accessor not found");
    let mut p = primitive(None, None);
    p.attributes.remove(1);
    assert_eq!(message(load_primitive(&d, &bin, &file, &p)), "Normal accessor not found");
    assert_eq!(
        message(load_primitive(&d, &bin, &file, &primitive(None, Some(4)))),
        "The PICA200 gpu only supports u8 and u16 indicies"
    );
    assert_eq!(
        message(load_primitive(&d, &bin, &file, &primitive(None, Some(6)))),
        "Invalid Checked"
    );
    assert_eq!(
        message(load_primitive(&d, &bin, &file, &primitive(None, Some(50)))),
        "Accessor does not exist"
    );
    let mut big = doc(vec![]);
    big.accessors[0].count = 100;
    assert_eq!(
        message(load_primitive(&big, &bin, &file, &primitive(None, None))),
        "failed to fill whole buffer"
    );
}

#[test]
fn loads_every_mesh_in_order() {
    let (file, bin) = file_and_bin();
    let d = doc(vec![
        GltfMesh {
            primitives: vec![primitive(None, None), primitive(Some(0), Some(3))],
        },
        GltfMesh { primitives: vec![] },
    ]);
    let model = load_model(&d, &bin, &file, "/models/thing").unwrap();
    assert_eq!(model.name, "/models/thing");
    assert_eq!(model.meshes.len(), 2);
    assert_eq!(model.meshes[0].primitives.len(), 2);
    assert_eq!(model.meshes[0].primitives[1].texcoords, Some(vec![21, 22, 23, 24]));
    assert!(model.meshes[1].primitives.is_empty());
}

#[test]
fn model_fails_on_its_first_bad_primitive() {
    let (file, bin) = file_and_bin();
    let d = doc(vec![GltfMesh {
        primitives: vec![primitive(None, Some(4)), primitive(None, Some(6))],
    }]);
    assert_eq!(
        message(load_model(&d, &bin, &file, "m")),
        "The PICA200 gpu only supports u8 and u16 indicies"
    );
}

const GLTF_JSON: &str = r#"{
  "asset": {"version": "2.0"},
  "buffers": [{"byteLength": 70}],
  "bufferViews": [
    {"buffer": 0, "byteOffset": 0, "byteLength": 24},
    {"buffer": 0, "byteOffset": 24, "byteLength": 24},
    {"buffer": 0, "byteOffset": 48, "byteLength": 16},
    {"buffer": 0, "byteOffset": 64, "byteLength": 6}
  ],
  "accessors": [
    {"bufferView": 0, "componentType": 5126, "count": 2, "type": "VEC3"},
    {"bufferView": 1, "componentType": 5126, "count": 2, "type": "VEC3"},
    {"bufferView": 2, "componentType": 5126, "count": 2, "type": "VEC2"},
    {"bufferView": 3, "componentType": 5123, "count": 3, "type": "SCALAR"}
  ],
  "materials": [{"pbrMetallicRoughness": {"baseColorTexture": {"index": 0, "texCoord": 0}}}],
  "meshes": [{"primitives": [{
    "attributes": {"POSITION": 0, "NORMAL": 1, "TEXCOORD_0": 2},
    "indices": 3,
    "material": 0
  }]}]
}"#;

fn glb_with_json(json: &str) -> Vec<u8> {
    let json = json.as_bytes().to_vec();
    let bin = bin_data();
    let mut body = Vec::new();
    push_u32(&mut body, json.len() as u32);
    push_u32(&mut body, JSON_CHUNK_MAGIC);
    body.extend_from_slice(&json);
    push_u32(&mut body, bin.len() as u32);
    push_u32(&mut body, BIN_CHUNK_MAGIC);
    body.extend_from_slice(&bin);
    let mut file = Vec::new();
    push_u32(&mut file, GLTF_MAGIC);
    push_u32(&mut file, 2);
    push_u32(&mut file, (12 + body.len()) as u32);
    file.extend_from_slice(&body);
    file
}

#[test]
fn reads_the_json_chunk_as_a_gltf_document() {
    let d = parse_gltf(GLTF_JSON.as_bytes()).unwrap();
    assert_eq!(d.asset_version, "2.0");
    assert_eq!(d.accessors.len(), 4);
    assert_eq!(d.accessors[3].component_type, Some(ComponentType::U16));
    assert_eq!(d.accessors[0].count, 2);
    assert_eq!(d.buffer_views[2].byte_offset, Some(48));
    assert_eq!(d.materials[0].base_color_tex_coord, Some(0));
    assert_eq!(d.meshes[0].primitives[0].indices, Some(3));
    assert_eq!(find_attribute(&d.meshes[0].primitives[0], Semantic::TexCoords(0)), Some(2));
    assert!(parse_gltf(b"not json").is_none());
}

#[test]
fn loads_a_model_from_its_file() {
    let file = glb_with_json(GLTF_JSON);
    match load_from_glb(&file, "/models/cube") {
        ModelLoad::Done(Ok(model)) => {
            assert_eq!(model.name, "/models/cube");
            let p = &model.meshes[0].primitives[0];
            assert_eq!(p.positions, vec![1, 2, 3, 4, 5, 6]);
            assert_eq!(p.texcoords, Some(vec![21, 22, 23, 24]));
            assert!(matches!(&p.indices, IndexData::U16Bit(v) if *v == vec![0, 1, 0x0102]));
        }
        other => panic!("expected a model, got {:?}", other),
    }
}

#[test]
fn model_file_failures() {
    assert!(matches!(load_from_glb(&[0u8; 16], "x"), ModelLoad::Unreadable));
    assert!(matches!(load_from_glb(&glb_with_json("{]"), "x"), ModelLoad::InvalidJson));
    let old = GLTF_JSON.replace("\"2.0\"", "\"1.0\"");
    match load_from_glb(&glb_with_json(&old), "x") {
        ModelLoad::UnsupportedVersion(v) => assert_eq!(v, "1.0"),
        other => panic!("expected an unsupported version, got {:?}", other),
    }
    match load_from_glb(&[1u8; 5], "short") {
        ModelLoad::Done(Err(CitraError::PlatformError(m))) => {
            assert_eq!(m, "Platform Error: Steam size is not big enough to read the header")
        }
        other => panic!("expected a header error, got {:?}", other),
    }
}
