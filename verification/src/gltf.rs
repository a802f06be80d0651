//! The parts of a glTF document that model loading reads, and the loading of
//! vertex and index data from the binary chunk of a GLB file.
use vstd::prelude::*;

use gltf_json::accessor::{ComponentType as JsonComponentType, GenericComponentType};
use gltf_json::mesh::Semantic as JsonSemantic;
use gltf_json::validation::Checked;

use crate::error::CitraError;
use crate::glb::{ChunkHeader, is_platform_error, read_u16_le, read_u32_le, u16_le, u32_le};

verus! {

/// The asset version that model files must declare.
pub const SUPPORTED_ASSET_VERSION: &'static str = "2.0";

/// The type of the components of an accessor's elements.
#[derive(Clone, Copy, Debug, PartialEq, Eq, Structural)]
pub enum ComponentType {
    I8,
    U8,
    I16,
    U16,
    U32,
    F32,
}

/// An accessor: how many elements it has, the buffer view that holds them and
/// their component type (`None` where the document names an unknown type).
#[derive(Clone, Copy, Debug, PartialEq, Eq, Structural)]
pub struct GltfAccessor {
    pub count: u64,
    pub buffer_view: Option<usize>,
    pub component_type: Option<ComponentType>,
}

/// A buffer view: where its bytes start in the binary chunk.
#[derive(Clone, Copy, Debug, PartialEq, Eq, Structural)]
pub struct GltfBufferView {
    pub byte_offset: Option<u64>,
}

/// The meaning of a vertex attribute.
#[derive(Clone, Copy, Debug, PartialEq, Eq, Structural)]
pub enum Semantic {
    Positions,
    Normals,
    Tangents,
    Colors(u32),
    TexCoords(u32),
    Joints(u32),
    Weights(u32),
    /// A name that the document does not define.
    Invalid,
}

/// A primitive: its attributes with their accessors, its index accessor and
/// its material.
#[derive(Debug)]
pub struct GltfPrimitive {
    pub attributes: Vec<(Semantic, usize)>,
    pub indices: Option<usize>,
    pub material: Option<usize>,
}

#[derive(Debug)]
pub struct GltfMesh {
    pub primitives: Vec<GltfPrimitive>,
}

/// A material: the texture coordinate set of its base color texture, where
/// it has one.
#[derive(Clone, Copy, Debug, PartialEq, Eq, Structural)]
pub struct GltfMaterial {
    pub base_color_tex_coord: Option<u32>,
}

/// The parts of a glTF document that model loading reads.
#[derive(Debug)]
pub struct GltfDoc {
    pub asset_version: String,
    pub accessors: Vec<GltfAccessor>,
    pub buffer_views: Vec<GltfBufferView>,
    pub meshes: Vec<GltfMesh>,
    pub materials: Vec<GltfMaterial>,
}

/// A primitive with its attributes taken as a sequence.
#[verifier::ext_equal]
pub struct GltfPrimitiveView {
    pub attributes: Seq<(Semantic, usize)>,
    pub indices: Option<usize>,
    pub material: Option<usize>,
}

/// A mesh with its primitives taken as a sequence of views.
#[verifier::ext_equal]
pub struct GltfMeshView {
    pub primitives: Seq<GltfPrimitiveView>,
}

/// A document with its lists taken as sequences and its version as
/// characters.
#[verifier::ext_equal]
pub struct GltfDocView {
    pub asset_version: Seq<char>,
    pub accessors: Seq<GltfAccessor>,
    pub buffer_views: Seq<GltfBufferView>,
    pub meshes: Seq<GltfMeshView>,
    pub materials: Seq<GltfMaterial>,
}

impl GltfPrimitive {
    pub open spec fn view(&self) -> GltfPrimitiveView {
        GltfPrimitiveView {
            attributes: self.attributes@,
            indices: self.indices,
            material: self.material,
        }
    }
}

impl GltfMesh {
    pub open spec fn view(&self) -> GltfMeshView {
        GltfMeshView { primitives: self.primitives@.map_values(|p: GltfPrimitive| p.view()) }
    }
}

impl GltfDoc {
    pub open spec fn view(&self) -> GltfDocView {
        GltfDocView {
            asset_version: self.asset_version@,
            accessors: self.accessors@,
            buffer_views: self.buffer_views@,
            meshes: self.meshes@.map_values(|m: GltfMesh| m.view()),
            materials: self.materials@,
        }
    }
}

/// The element count of accessor `idx`, or the error message.
pub open spec fn accessor_count(doc: GltfDocView, idx: int) -> Result<int, Seq<char>> {
    if 0 <= idx < doc.accessors.len() {
        let c = doc.accessors[idx].count;
        if c <= usize::MAX {
            Ok(c as int)
        } else {
            Err("Accessor count could not be converted to usize"@)
        }
    } else {
        Err("Could not find accessor"@)
    }
}

/// The element count of an accessor, as a `usize`.
pub fn get_accessor_size(doc: &GltfDoc, idx: usize) -> (res: Result<usize, CitraError>)
    ensures
        match accessor_count(doc.view(), idx as int) {
            Ok(c) => res == Ok::<usize, CitraError>(c as usize),
            Err(m) => is_platform_error(res, m),
        },
{
    if idx >= doc.accessors.len() {
        return Err(CitraError::PlatformError(String::from_str("Could not find accessor")));
    }
    let c = doc.accessors[idx].count;
    if c <= usize::MAX as u64 {
        Ok(c as usize)
    } else {
        Err(
            CitraError::PlatformError(
                String::from_str("Accessor count could not be converted to usize"),
            ),
        )
    }
}

/// The component type of an accessor.
pub fn get_accessor_component_type(doc: &GltfDoc, idx: usize) -> (res: Result<
    Option<ComponentType>,
    CitraError,
>)
    ensures
        idx < doc.accessors@.len() ==> res == Ok::<Option<ComponentType>, CitraError>(
            doc.accessors@[idx as int].component_type,
        ),
        idx >= doc.accessors@.len() ==> is_platform_error(res, "Accessor does not exist"@),
{
    if idx < doc.accessors.len() {
        Ok(doc.accessors[idx].component_type)
    } else {
        Err(CitraError::PlatformError(String::from_str("Accessor does not exist")))
    }
}

/// Where accessor `idx`'s data starts within the binary chunk, or the error
/// message; `missing` is the message for an accessor that does not exist.
pub open spec fn accessor_offset(doc: GltfDocView, idx: int, missing: Seq<char>) -> Result<
    int,
    Seq<char>,
> {
    if !(0 <= idx < doc.accessors.len()) {
        Err(missing)
    } else {
        match doc.accessors[idx].buffer_view {
            None => Err("Accessor does not contain buffer view idx"@),
            Some(v) => if v >= doc.buffer_views.len() {
                Err("Buffer View index does not exist"@)
            } else {
                match doc.buffer_views[v as int].byte_offset {
                    None => Err("Buffer View does not have an offset"@),
                    Some(o) => if o <= usize::MAX {
                        Ok(o as int)
                    } else {
                        Err("Could not convert u64 to usize"@)
                    },
                }
            },
        }
    }
}

/// The bytes of `count` elements of `elem` bytes each of accessor `idx`,
/// read from `file` at its offset from the start of the binary chunk's data;
/// or the error message. A read past the end of the file fails.
pub open spec fn accessor_bytes(
    doc: GltfDocView,
    bin: ChunkHeader,
    file: Seq<u8>,
    idx: int,
    count: int,
    elem: int,
    missing: Seq<char>,
) -> Result<Seq<u8>, Seq<char>> {
    match accessor_offset(doc, idx, missing) {
        Err(m) => Err(m),
        Ok(o) => {
            let start = bin.chunk_location + o;
            let n = count * elem;
            if start + n <= file.len() {
                Ok(file.subrange(start, start + n))
            } else {
                Err("failed to fill whole buffer"@)
            }
        },
    }
}

/// `res` is the exec counterpart of the byte read `spec`.
pub open spec fn bytes_match(res: Result<Vec<u8>, CitraError>, spec: Result<Seq<u8>, Seq<char>>) -> bool {
    match spec {
        Ok(s) => res matches Ok(v) && v@ == s,
        Err(m) => is_platform_error(res, m),
    }
}

/// Where accessor `idx`'s data starts within the binary chunk.
fn accessor_data_offset(doc: &GltfDoc, idx: usize, missing: &str) -> (res: Result<
    usize,
    CitraError,
>)
    ensures
        match accessor_offset(doc.view(), idx as int, missing@) {
            Ok(o) => res == Ok::<usize, CitraError>(o as usize),
            Err(m) => is_platform_error(res, m),
        },
{
    if idx >= doc.accessors.len() {
        return Err(CitraError::PlatformError(String::from_str(missing)));
    }
    let view = match doc.accessors[idx].buffer_view {
        None => {
            return Err(
                CitraError::PlatformError(
                    String::from_str("Accessor does not contain buffer view idx"),
                ),
            );
        },
        Some(v) => v,
    };
    if view >= doc.buffer_views.len() {
        return Err(CitraError::PlatformError(String::from_str("Buffer View index does not exist")));
    }
    match doc.buffer_views[view].byte_offset {
        None => Err(
            CitraError::PlatformError(String::from_str("Buffer View does not have an offset")),
        ),
        Some(o) => if o <= usize::MAX as u64 {
            Ok(o as usize)
        } else {
            Err(CitraError::PlatformError(String::from_str("Could not convert u64 to usize")))
        },
    }
}

/// Reads `count` elements of `elem` bytes each of an accessor from the file.
pub fn read_accessor_bytes(
    doc: &GltfDoc,
    bin: &ChunkHeader,
    file: &[u8],
    idx: usize,
    count: usize,
    elem: usize,
    missing: &str,
) -> (res: Result<Vec<u8>, CitraError>)
    ensures
        bytes_match(
            res,
            accessor_bytes(doc.view(), *bin, file@, idx as int, count as int, elem as int, missing@),
        ),
{
    let offset = match accessor_data_offset(doc, idx, missing) {
        Ok(o) => o,
        Err(e) => {
            return Err(e);
        },
    };
    let len = file.len();
    let eof = "failed to fill whole buffer";
    let start = match bin.chunk_location.checked_add(offset) {
        Some(s) => s,
        None => {
            return Err(CitraError::PlatformError(String::from_str(eof)));
        },
    };
    let n = match count.checked_mul(elem) {
        Some(n) => n,
        None => {
            return Err(CitraError::PlatformError(String::from_str(eof)));
        },
    };
    if start > len || n > len - start {
        return Err(CitraError::PlatformError(String::from_str(eof)));
    }
    let mut out: Vec<u8> = Vec::new();
    for k in 0..n
        invariant
            start + n <= len,
            len == file@.len(),
            out@ == file@.subrange(start as int, start + k),
    {
        out.push(file[start + k]);
        proof {
            assert(out@ =~= file@.subrange(start as int, start + k + 1));
        }
    }
    Ok(out)
}

/// The little-endian 32-bit words of `b`.
pub open spec fn words_le(b: Seq<u8>) -> Seq<u32> {
    Seq::new(b.len() / 4, |i: int| u32_le(b, 4 * i) as u32)
}

/// The little-endian 16-bit values of `b`.
pub open spec fn halves_le(b: Seq<u8>) -> Seq<u16> {
    Seq::new(b.len() / 2, |i: int| u16_le(b, 2 * i) as u16)
}

/// Decodes little-endian 32-bit words.
pub fn decode_u32s(bytes: &[u8]) -> (w: Vec<u32>)
    requires
        bytes@.len() % 4 == 0,
    ensures
        w@ == words_le(bytes@),
{
    let n = bytes.len();
    let mut w: Vec<u32> = Vec::new();
    let mut off: usize = 0;
    while off < n
        invariant
            n == bytes@.len(),
            n % 4 == 0,
            off == 4 * w@.len(),
            off <= n,
            forall|i: int| 0 <= i < w@.len() ==> w@[i] == u32_le(bytes@, 4 * i) as u32,
        decreases n - off,
    {
        let v = read_u32_le(bytes, off);
        w.push(v);
        off = off + 4;
    }
    assert(w@ =~= words_le(bytes@));
    w
}

/// Decodes little-endian 16-bit values.
pub fn decode_u16s(bytes: &[u8]) -> (w: Vec<u16>)
    requires
        bytes@.len() % 2 == 0,
    ensures
        w@ == halves_le(bytes@),
{
    let n = bytes.len();
    let mut w: Vec<u16> = Vec::new();
    let mut off: usize = 0;
    while off < n
        invariant
            n == bytes@.len(),
            n % 2 == 0,
            off == 2 * w@.len(),
            off <= n,
            forall|i: int| 0 <= i < w@.len() ==> w@[i] == u16_le(bytes@, 2 * i) as u16,
        decreases n - off,
    {
        let v = read_u16_le(bytes, off);
        w.push(v);
        off = off + 2;
    }
    assert(w@ =~= halves_le(bytes@));
    w
}


#[verifier::external_type_specification]
#[verifier::external_body]
pub struct ExRoot(gltf_json::Root);

/// The parts of a glTF document that model loading reads, as
/// `simd_json::from_slice` gives them when it reads `bytes` into gltf_json's
/// `Root`: the field `asset.version`; each accessor's `count`, `buffer_view`
/// and `component_type`; each buffer view's `byte_offset`; each mesh's
/// primitives with their `attributes` (in the map's order), `indices` and
/// `material`; each material's base color texture coordinate set. `None`
/// where the bytes are not such a document.
pub uninterp spec fn gltf_doc(bytes: Seq<u8>) -> Option<GltfDocView>;

/// A glTF document as simd_json read it, with the bytes it was read from.
struct JsonRoot {
    root: gltf_json::Root,
    source: Ghost<Seq<u8>>,
}

/// The document that `p` was read as.
spec fn root_doc(p: &JsonRoot) -> GltfDocView {
    gltf_doc(p.source@).unwrap()
}

/// Parses a copy of the bytes (the parser works in place) with
/// `simd_json::from_slice` into gltf_json's `Root`. Claimed: it succeeds
/// exactly where `gltf_doc` names a document, and keeps the bytes it read.
#[verifier::external_body]
fn parse_root(bytes: &[u8]) -> (r: Option<JsonRoot>)
    ensures
        match r {
            Some(p) => p.source@ == bytes@ && gltf_doc(bytes@) is Some,
            None => gltf_doc(bytes@) is None,
        },
{
    let mut data = bytes.to_vec();
    match simd_json::from_slice::<gltf_json::Root>(&mut data) {
        Ok(root) => Some(JsonRoot { root, source: Ghost(bytes@) }),
        Err(_) => None,
    }
}

/// The document's asset version (field `asset.version`).
#[verifier::external_body]
fn root_asset_version(p: &JsonRoot) -> (r: String)
    requires
        gltf_doc(p.source@) is Some,
    ensures
        r@ == root_doc(p).asset_version,
{
    p.root.asset.version.clone()
}

/// The numbers of accessors, buffer views, meshes and materials.
#[verifier::external_body]
fn root_counts(p: &JsonRoot) -> (r: (usize, usize, usize, usize))
    requires
        gltf_doc(p.source@) is Some,
    ensures
        r.0 == root_doc(p).accessors.len(),
        r.1 == root_doc(p).buffer_views.len(),
        r.2 == root_doc(p).meshes.len(),
        r.3 == root_doc(p).materials.len(),
{
    let root = &p.root;
    (root.accessors.len(), root.buffer_views.len(), root.meshes.len(), root.materials.len())
}

/// Accessor `i`'s count and buffer view (fields `count`, `buffer_view`).
#[verifier::external_body]
fn root_accessor(p: &JsonRoot, i: usize) -> (r: Option<(u64, Option<usize>)>)
    requires
        gltf_doc(p.source@) is Some,
    ensures
        i < root_doc(p).accessors.len() ==> r == Some((
            root_doc(p).accessors[i as int].count,
            root_doc(p).accessors[i as int].buffer_view,
        )),
        i >= root_doc(p).accessors.len() ==> r is None,
{
    p.root.accessors.get(i).map(|a| (a.count.0, a.buffer_view.map(|v| v.value())))
}

/// Accessor `i`'s component type (field `component_type`), `None` inside for
/// an invalid one.
#[verifier::external_body]
fn root_accessor_type(p: &JsonRoot, i: usize) -> (r: Option<Option<ComponentType>>)
    requires
        gltf_doc(p.source@) is Some,
    ensures
        i < root_doc(p).accessors.len() ==> r == Some(root_doc(p).accessors[i as int].component_type),
        i >= root_doc(p).accessors.len() ==> r is None,
{
    p.root.accessors.get(i).map(|a| match a.component_type {
        Checked::Valid(GenericComponentType(JsonComponentType::I8)) => Some(ComponentType::I8),
        Checked::Valid(GenericComponentType(JsonComponentType::U8)) => Some(ComponentType::U8),
        Checked::Valid(GenericComponentType(JsonComponentType::I16)) => Some(ComponentType::I16),
        Checked::Valid(GenericComponentType(JsonComponentType::U16)) => Some(ComponentType::U16),
        Checked::Valid(GenericComponentType(JsonComponentType::U32)) => Some(ComponentType::U32),
        Checked::Valid(GenericComponentType(JsonComponentType::F32)) => Some(ComponentType::F32),
        Checked::Invalid => None,
    })
}

/// Buffer view `i`'s byte offset (field `byte_offset`).
#[verifier::external_body]
fn root_buffer_view(p: &JsonRoot, i: usize) -> (r: Option<GltfBufferView>)
    requires
        gltf_doc(p.source@) is Some,
    ensures
        i < root_doc(p).buffer_views.len() ==> r == Some(root_doc(p).buffer_views[i as int]),
        i >= root_doc(p).buffer_views.len() ==> r is None,
{
    p.root.buffer_views.get(i).map(|v| GltfBufferView { byte_offset: v.byte_offset.map(|o| o.0) })
}

/// The number of primitives of mesh `m`.
#[verifier::external_body]
fn root_mesh(p: &JsonRoot, m: usize) -> (r: Option<usize>)
    requires
        gltf_doc(p.source@) is Some,
    ensures
        r is Some <==> m < root_doc(p).meshes.len(),
        r is Some ==> r.unwrap() == root_doc(p).meshes[m as int].primitives.len(),
{
    p.root.meshes.get(m).map(|x| x.primitives.len())
}

/// Primitive `q` of mesh `m` of the document read as `p`.
spec fn root_prim(p: &JsonRoot, m: int, q: int) -> GltfPrimitiveView {
    root_doc(p).meshes[m].primitives[q]
}

/// Whether mesh `m` of the document read as `p` has a primitive `q`.
spec fn has_prim(p: &JsonRoot, m: int, q: int) -> bool {
    0 <= m < root_doc(p).meshes.len() && 0 <= q < root_doc(p).meshes[m].primitives.len()
}

/// Primitive `q` of mesh `m`: its number of attributes, its index accessor and
/// its material (fields `attributes`, `indices`, `material`).
#[verifier::external_body]
fn root_primitive(p: &JsonRoot, m: usize, q: usize) -> (r: Option<(usize, Option<usize>, Option<usize>)>)
    requires
        gltf_doc(p.source@) is Some,
    ensures
        r is Some <==> has_prim(p, m as int, q as int),
        r is Some ==> r.unwrap().0 == root_prim(p, m as int, q as int).attributes.len(),
        r is Some ==> r.unwrap().1 == root_prim(p, m as int, q as int).indices,
        r is Some ==> r.unwrap().2 == root_prim(p, m as int, q as int).material,
{
    let x = p.root.meshes.get(m)?.primitives.get(q)?;
    Some((x.attributes.len(), x.indices.map(|i| i.value()), x.material.map(|i| i.value())))
}

/// Attribute `a`, in the map's order, of primitive `q` of mesh `m`: its
/// meaning and its accessor.
#[verifier::external_body]
fn root_attribute(p: &JsonRoot, m: usize, q: usize, a: usize) -> (r: Option<(Semantic, usize)>)
    requires
        gltf_doc(p.source@) is Some,
    ensures
        has_prim(p, m as int, q as int) && a < root_prim(p, m as int, q as int).attributes.len()
            ==> r == Some(root_prim(p, m as int, q as int).attributes[a as int]),
        !(has_prim(p, m as int, q as int) && a < root_prim(p, m as int, q as int).attributes.len())
            ==> r is None,
{
    let (k, v) = p.root.meshes.get(m)?.primitives.get(q)?.attributes.iter().nth(a)?;
    let s = match k {
        Checked::Valid(JsonSemantic::Positions) => Semantic::Positions,
        Checked::Valid(JsonSemantic::Normals) => Semantic::Normals,
        Checked::Valid(JsonSemantic::Tangents) => Semantic::Tangents,
        Checked::Valid(JsonSemantic::Colors(n)) => Semantic::Colors(*n),
        Checked::Valid(JsonSemantic::TexCoords(n)) => Semantic::TexCoords(*n),
        Checked::Valid(JsonSemantic::Joints(n)) => Semantic::Joints(*n),
        Checked::Valid(JsonSemantic::Weights(n)) => Semantic::Weights(*n),
        Checked::Invalid => Semantic::Invalid,
    };
    Some((s, v.value()))
}

/// Material `i`'s base color texture coordinate set (field
/// `pbr_metallic_roughness.base_color_texture.tex_coord`).
#[verifier::external_body]
fn root_material(p: &JsonRoot, i: usize) -> (r: Option<GltfMaterial>)
    requires
        gltf_doc(p.source@) is Some,
    ensures
        i < root_doc(p).materials.len() ==> r == Some(root_doc(p).materials[i as int]),
        i >= root_doc(p).materials.len() ==> r is None,
{
    p.root.materials.get(i).map(|x| GltfMaterial {
        base_color_tex_coord: x.pbr_metallic_roughness.base_color_texture.as_ref().map(|t| t.tex_coord),
    })
}

/// The primitives of mesh `m` of the document, in order.
fn doc_primitives(p: &JsonRoot, m: usize, count: usize) -> (r: Vec<GltfPrimitive>)
    requires
        gltf_doc(p.source@) is Some,
        m < root_doc(p).meshes.len(),
        count == root_doc(p).meshes[m as int].primitives.len(),
    ensures
        r@.map_values(|x: GltfPrimitive| x.view()) == root_doc(p).meshes[m as int].primitives,
{
    let ghost prims = root_doc(p).meshes[m as int].primitives;
    let mut out: Vec<GltfPrimitive> = Vec::new();
    for q in 0..count
        invariant
            gltf_doc(p.source@) is Some,
            m < root_doc(p).meshes.len(),
            prims == root_doc(p).meshes[m as int].primitives,
            count == prims.len(),
            out@.map_values(|x: GltfPrimitive| x.view()) == prims.take(q as int),
    {
        assert(has_prim(p, m as int, q as int));
        if let Some((n, indices, material)) = root_primitive(p, m, q) {
            let ghost attrs = prims[q as int].attributes;
            let mut attributes: Vec<(Semantic, usize)> = Vec::new();
            for a in 0..n
                invariant
                    gltf_doc(p.source@) is Some,
                    has_prim(p, m as int, q as int),
                    attrs == root_prim(p, m as int, q as int).attributes,
                    n == attrs.len(),
                    attributes@ == attrs.take(a as int),
            {
                if let Some(x) = root_attribute(p, m, q, a) {
                    attributes.push(x);
                }
                assert(attributes@ =~= attrs.take(a + 1));
            }
            assert(attrs.take(n as int) =~= attrs);
            let ghost before = out@.map_values(|x: GltfPrimitive| x.view());
            let prim = GltfPrimitive { attributes, indices, material };
            assert(prim.view() =~~= prims[q as int]);
            out.push(prim);
            assert(out@.map_values(|x: GltfPrimitive| x.view()) =~~= before.push(prim.view()));
        }
        assert(out@.map_values(|x: GltfPrimitive| x.view()) =~~= prims.take(q + 1));
    }
    assert(prims.take(count as int) =~= prims);
    out
}

/// The parts of a glTF document that model loading reads, each list in the
/// document's order.
fn doc_of_root(p: &JsonRoot) -> (r: GltfDoc)
    requires
        gltf_doc(p.source@) is Some,
    ensures
        r.view() == root_doc(p),
{
    let ghost d = root_doc(p);
    let (na, nv, nm, nmat) = root_counts(p);
    let mut accessors: Vec<GltfAccessor> = Vec::new();
    for i in 0..na
        invariant
            gltf_doc(p.source@) is Some,
            d == root_doc(p),
            na == d.accessors.len(),
            accessors@ == d.accessors.take(i as int),
    {
        if let (Some((count, buffer_view)), Some(component_type)) = (
            root_accessor(p, i),
            root_accessor_type(p, i),
        ) {
            accessors.push(GltfAccessor { count, buffer_view, component_type });
        }
        assert(accessors@ =~= d.accessors.take(i + 1));
    }
    let mut buffer_views: Vec<GltfBufferView> = Vec::new();
    for i in 0..nv
        invariant
            gltf_doc(p.source@) is Some,
            d == root_doc(p),
            nv == d.buffer_views.len(),
            buffer_views@ == d.buffer_views.take(i as int),
    {
        if let Some(v) = root_buffer_view(p, i) {
            buffer_views.push(v);
        }
        assert(buffer_views@ =~= d.buffer_views.take(i + 1));
    }
    let mut meshes: Vec<GltfMesh> = Vec::new();
    for m in 0..nm
        invariant
            gltf_doc(p.source@) is Some,
            d == root_doc(p),
            nm == d.meshes.len(),
            meshes@.map_values(|x: GltfMesh| x.view()) == d.meshes.take(m as int),
    {
        if let Some(count) = root_mesh(p, m) {
            let ghost before = meshes@.map_values(|x: GltfMesh| x.view());
            let mesh = GltfMesh { primitives: doc_primitives(p, m, count) };
            assert(mesh.view() =~~= d.meshes[m as int]);
            meshes.push(mesh);
            assert(meshes@.map_values(|x: GltfMesh| x.view()) =~~= before.push(mesh.view()));
        }
        assert(meshes@.map_values(|x: GltfMesh| x.view()) =~~= d.meshes.take(m + 1));
    }
    let mut materials: Vec<GltfMaterial> = Vec::new();
    for i in 0..nmat
        invariant
            gltf_doc(p.source@) is Some,
            d == root_doc(p),
            nmat == d.materials.len(),
            materials@ == d.materials.take(i as int),
    {
        if let Some(x) = root_material(p, i) {
            materials.push(x);
        }
        assert(materials@ =~= d.materials.take(i + 1));
    }
    assert(d.accessors.take(na as int) =~= d.accessors);
    assert(d.buffer_views.take(nv as int) =~= d.buffer_views);
    assert(d.meshes.take(nm as int) =~= d.meshes);
    assert(d.materials.take(nmat as int) =~= d.materials);
    let doc = GltfDoc {
        asset_version: root_asset_version(p),
        accessors,
        buffer_views,
        meshes,
        materials,
    };
    assert(doc.view() =~~= d);
    doc
}

/// Reads a glTF JSON document into the parts that model loading reads:
/// `None` exactly where the bytes are not a glTF document, else the parts
/// that `gltf_doc` names.
pub fn parse_gltf(bytes: &[u8]) -> (r: Option<GltfDoc>)
    ensures
        match r {
            Some(doc) => gltf_doc(bytes@) == Some(doc.view()),
            None => gltf_doc(bytes@) is None,
        },
{
    match parse_root(bytes) {
        Some(p) => Some(doc_of_root(&p)),
        None => None,
    }
}

} // verus!
