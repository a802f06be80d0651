//! Loading the vertex and index data of every primitive of a glTF model from
//! the bytes of its GLB file.
use vstd::prelude::*;

use crate::error::CitraError;
use crate::glb::{
    ChunkHeader, GlbFraming, glb_can_read, glb_framing, glb_readable, is_platform_error,
    lemma_json_chunk_in_file, read_header,
};
use crate::gltf::{
    ComponentType, GltfDoc, GltfDocView, GltfMesh, GltfMeshView, GltfPrimitive,
    GltfPrimitiveView, Semantic, accessor_bytes, accessor_count,
    bytes_match, decode_u16s, decode_u32s, get_accessor_component_type, get_accessor_size,
    gltf_doc, halves_le, parse_gltf, read_accessor_bytes, words_le,
    SUPPORTED_ASSET_VERSION,
};
use crate::script::str_equal;

verus! {

/// The bytes of a position or normal: three 32-bit floats.
pub const VEC3_BYTES: usize = 12;

/// The bytes of a texture coordinate: two 32-bit floats.
pub const VEC2_BYTES: usize = 8;

/// The accessor of the first attribute of `entries` with the meaning `s`.
pub open spec fn lookup(entries: Seq<(Semantic, usize)>, s: Semantic) -> Option<usize>
    decreases entries.len(),
{
    if entries.len() == 0 {
        None
    } else if entries[0].0 == s {
        Some(entries[0].1)
    } else {
        lookup(entries.drop_first(), s)
    }
}

/// The accessor of a primitive's attribute with the meaning `s`.
pub fn find_attribute(p: &GltfPrimitive, s: Semantic) -> (r: Option<usize>)
    ensures
        r == lookup(p.attributes@, s),
{
    let n = p.attributes.len();
    assert(p.attributes@.skip(0) =~= p.attributes@);
    for k in 0..n
        invariant
            n == p.attributes@.len(),
            lookup(p.attributes@, s) == lookup(p.attributes@.skip(k as int), s),
    {
        assert(p.attributes@.skip(k as int).drop_first() =~= p.attributes@.skip(k + 1));
        if p.attributes[k].0 == s {
            return Some(p.attributes[k].1);
        }
    }
    None
}

/// The texture coordinate accessor of a primitive: the attribute of the
/// coordinate set that its material's base color texture uses.
pub open spec fn texcoord_accessor(doc: GltfDocView, p: GltfPrimitiveView) -> Option<usize> {
    match p.material {
        Some(m) => if m < doc.materials.len() {
            match doc.materials[m as int].base_color_tex_coord {
                Some(tc) => lookup(p.attributes, Semantic::TexCoords(tc)),
                None => None,
            }
        } else {
            None
        },
        None => None,
    }
}

/// Finds the texture coordinate accessor of a primitive.
pub fn select_texcoord(doc: &GltfDoc, p: &GltfPrimitive) -> (r: Option<usize>)
    ensures
        r == texcoord_accessor(doc.view(), p.view()),
{
    match p.material {
        Some(m) => if m < doc.materials.len() {
            match doc.materials[m].base_color_tex_coord {
                Some(tc) => find_attribute(p, Semantic::TexCoords(tc)),
                None => None,
            }
        } else {
            None
        },
        None => None,
    }
}

/// The index buffer of a primitive.
#[derive(Debug)]
pub enum IndexData {
    U16Bit(Vec<u16>),
    U8Bit(Vec<u8>),
    NotPresent,
}

pub enum IndexDataView {
    U16Bit(Seq<u16>),
    U8Bit(Seq<u8>),
    NotPresent,
}

impl IndexData {
    pub open spec fn view(&self) -> IndexDataView {
        match self {
            IndexData::U16Bit(v) => IndexDataView::U16Bit(v@),
            IndexData::U8Bit(v) => IndexDataView::U8Bit(v@),
            IndexData::NotPresent => IndexDataView::NotPresent,
        }
    }
}

/// The data of one primitive: positions and normals as three float bit
/// patterns per vertex, texture coordinates as two, and the index buffer.
#[derive(Debug)]
pub struct PrimitiveData {
    pub positions: Vec<u32>,
    pub texcoords: Option<Vec<u32>>,
    pub normals: Vec<u32>,
    pub indices: IndexData,
}

pub struct PrimitiveDataView {
    pub positions: Seq<u32>,
    pub texcoords: Option<Seq<u32>>,
    pub normals: Seq<u32>,
    pub indices: IndexDataView,
}

impl PrimitiveData {
    pub open spec fn view(&self) -> PrimitiveDataView {
        PrimitiveDataView {
            positions: self.positions@,
            texcoords: match self.texcoords {
                Some(t) => Some(t@),
                None => None,
            },
            normals: self.normals@,
            indices: self.indices.view(),
        }
    }
}

/// The index buffer of a primitive with index accessor `indices`, or the
/// error message. Only 8 and 16 bit indices can be drawn.
pub open spec fn index_result(
    doc: GltfDocView,
    bin: ChunkHeader,
    file: Seq<u8>,
    indices: Option<usize>,
) -> Result<IndexDataView, Seq<char>> {
    match indices {
        None => Ok(IndexDataView::NotPresent),
        Some(i) => if i >= doc.accessors.len() {
            Err("Accessor does not exist"@)
        } else {
            match doc.accessors[i as int].component_type {
                Some(ComponentType::U8) => match accessor_count(doc, i as int) {
                    Err(m) => Err(m),
                    Ok(c) => match accessor_bytes(
                        doc,
                        bin,
                        file,
                        i as int,
                        c,
                        1,
                        "Accessor does not exist"@,
                    ) {
                        Err(m) => Err(m),
                        Ok(b) => Ok(IndexDataView::U8Bit(b)),
                    },
                },
                Some(ComponentType::U16) => match accessor_count(doc, i as int) {
                    Err(m) => Err(m),
                    Ok(c) => match accessor_bytes(
                        doc,
                        bin,
                        file,
                        i as int,
                        c,
                        2,
                        "Accessor does not exist"@,
                    ) {
                        Err(m) => Err(m),
                        Ok(b) => Ok(IndexDataView::U16Bit(halves_le(b))),
                    },
                },
                Some(_) => Err("The PICA200 gpu only supports u8 and u16 indicies"@),
                None => Err("Invalid Checked"@),
            }
        },
    }
}

/// Loads the index buffer of a primitive.
pub fn load_indices(doc: &GltfDoc, bin: &ChunkHeader, file: &[u8], indices: Option<usize>) -> (res:
    Result<IndexData, CitraError>)
    ensures
        match index_result(doc.view(), *bin, file@, indices) {
            Ok(v) => res matches Ok(d) && d.view() == v,
            Err(m) => is_platform_error(res, m),
        },
{
    let i = match indices {
        None => {
            return Ok(IndexData::NotPresent);
        },
        Some(i) => i,
    };
    let missing = "Accessor does not exist";
    let ct = match get_accessor_component_type(doc, i) {
        Ok(ct) => ct,
        Err(e) => {
            return Err(e);
        },
    };
    match ct {
        Some(ComponentType::U8) => {
            let n = match get_accessor_size(doc, i) {
                Ok(n) => n,
                Err(e) => {
                    return Err(e);
                },
            };
            match read_accessor_bytes(doc, bin, file, i, n, 1, missing) {
                Ok(b) => Ok(IndexData::U8Bit(b)),
                Err(e) => Err(e),
            }
        },
        Some(ComponentType::U16) => {
            let n = match get_accessor_size(doc, i) {
                Ok(n) => n,
                Err(e) => {
                    return Err(e);
                },
            };
            match read_accessor_bytes(doc, bin, file, i, n, 2, missing) {
                Ok(b) => {
                    assert((n * 2) % 2 == 0);
                    Ok(IndexData::U16Bit(decode_u16s(b.as_slice())))
                },
                Err(e) => Err(e),
            }
        },
        Some(_) => Err(
            CitraError::PlatformError(
                String::from_str("The PICA200 gpu only supports u8 and u16 indicies"),
            ),
        ),
        None => Err(CitraError::PlatformError(String::from_str("Invalid Checked"))),
    }
}

/// The texture coordinates of `count` vertices from accessor `tex`, where
/// there is one, or the error message.
pub open spec fn texcoord_result(
    doc: GltfDocView,
    bin: ChunkHeader,
    file: Seq<u8>,
    tex: Option<usize>,
    count: int,
) -> Result<Option<Seq<u32>>, Seq<char>> {
    match tex {
        None => Ok(None),
        Some(t) => match accessor_bytes(
            doc,
            bin,
            file,
            t as int,
            count,
            VEC2_BYTES as int,
            "Could not find accessor"@,
        ) {
            Err(m) => Err(m),
            Ok(b) => Ok(Some(words_le(b))),
        },
    }
}

/// The data of primitive `p`, or the error message. The position accessor
/// gives the vertex count; positions, texture coordinates, normals and
/// indices are read in that order, and the first failure is the result.
pub open spec fn primitive_result(
    doc: GltfDocView,
    bin: ChunkHeader,
    file: Seq<u8>,
    p: GltfPrimitiveView,
) -> Result<PrimitiveDataView, Seq<char>> {
    let missing = "Could not find accessor"@;
    match lookup(p.attributes, Semantic::Positions) {
        None => Err("Position accessor not found"@),
        Some(pi) => match lookup(p.attributes, Semantic::Normals) {
            None => Err("Normal accessor not found"@),
            Some(ni) => match accessor_count(doc, pi as int) {
                Err(m) => Err(m),
                Ok(c) => match accessor_bytes(
                    doc,
                    bin,
                    file,
                    pi as int,
                    c,
                    VEC3_BYTES as int,
                    missing,
                ) {
                    Err(m) => Err(m),
                    Ok(pb) => match texcoord_result(doc, bin, file, texcoord_accessor(doc, p), c) {
                        Err(m) => Err(m),
                        Ok(tex) => match accessor_bytes(
                            doc,
                            bin,
                            file,
                            ni as int,
                            c,
                            VEC3_BYTES as int,
                            missing,
                        ) {
                            Err(m) => Err(m),
                            Ok(nb) => match index_result(doc, bin, file, p.indices) {
                                Err(m) => Err(m),
                                Ok(ix) => Ok(
                                    PrimitiveDataView {
                                        positions: words_le(pb),
                                        texcoords: tex,
                                        normals: words_le(nb),
                                        indices: ix,
                                    },
                                ),
                            },
                        },
                    },
                },
            },
        },
    }
}

/// `res` is the exec counterpart of the primitive result `spec`.
pub open spec fn primitive_matches(
    res: Result<PrimitiveData, CitraError>,
    spec: Result<PrimitiveDataView, Seq<char>>,
) -> bool {
    match spec {
        Ok(v) => res matches Ok(d) && d.view() == v,
        Err(m) => is_platform_error(res, m),
    }
}

/// Reads `count` vertices' worth of float triples or pairs from an accessor.
fn read_floats(
    doc: &GltfDoc,
    bin: &ChunkHeader,
    file: &[u8],
    idx: usize,
    count: usize,
    elem: usize,
) -> (res: Result<Vec<u32>, CitraError>)
    requires
        elem == VEC3_BYTES || elem == VEC2_BYTES,
    ensures
        match accessor_bytes(
            doc.view(),
            *bin,
            file@,
            idx as int,
            count as int,
            elem as int,
            "Could not find accessor"@,
        ) {
            Ok(b) => res matches Ok(w) && w@ == words_le(b),
            Err(m) => is_platform_error(res, m),
        },
{
    match read_accessor_bytes(doc, bin, file, idx, count, elem, "Could not find accessor") {
        Ok(b) => {
            assert(b@.len() % 4 == 0) by {
                assert(b@.len() == count * elem);
                if elem == VEC3_BYTES {
                    assert((count * 12) % 4 == 0);
                } else {
                    assert((count * 8) % 4 == 0);
                }
            }
            Ok(decode_u32s(b.as_slice()))
        },
        Err(e) => Err(e),
    }
}

/// Loads the vertex and index data of one primitive.
pub fn load_primitive(doc: &GltfDoc, bin: &ChunkHeader, file: &[u8], p: &GltfPrimitive) -> (res:
    Result<PrimitiveData, CitraError>)
    ensures
        primitive_matches(res, primitive_result(doc.view(), *bin, file@, p.view())),
{
    let pi = match find_attribute(p, Semantic::Positions) {
        Some(i) => i,
        None => {
            return Err(CitraError::PlatformError(String::from_str("Position accessor not found")));
        },
    };
    let ni = match find_attribute(p, Semantic::Normals) {
        Some(i) => i,
        None => {
            return Err(CitraError::PlatformError(String::from_str("Normal accessor not found")));
        },
    };
    let tex = select_texcoord(doc, p);
    let count = match get_accessor_size(doc, pi) {
        Ok(c) => c,
        Err(e) => {
            return Err(e);
        },
    };
    let positions = match read_floats(doc, bin, file, pi, count, VEC3_BYTES) {
        Ok(w) => w,
        Err(e) => {
            return Err(e);
        },
    };
    let texcoords = match tex {
        None => None,
        Some(t) => match read_floats(doc, bin, file, t, count, VEC2_BYTES) {
            Ok(w) => Some(w),
            Err(e) => {
                return Err(e);
            },
        },
    };
    let normals = match read_floats(doc, bin, file, ni, count, VEC3_BYTES) {
        Ok(w) => w,
        Err(e) => {
            return Err(e);
        },
    };
    let indices = match load_indices(doc, bin, file, p.indices) {
        Ok(d) => d,
        Err(e) => {
            return Err(e);
        },
    };
    Ok(PrimitiveData { positions, texcoords, normals, indices })
}

/// The data of the primitives `ps` in order, or the message of the first
/// failure.
pub open spec fn prims_result(
    doc: GltfDocView,
    bin: ChunkHeader,
    file: Seq<u8>,
    ps: Seq<GltfPrimitiveView>,
) -> Result<Seq<PrimitiveDataView>, Seq<char>>
    decreases ps.len(),
{
    if ps.len() == 0 {
        Ok(Seq::empty())
    } else {
        match primitive_result(doc, bin, file, ps[0]) {
            Err(m) => Err(m),
            Ok(d) => match prims_result(doc, bin, file, ps.drop_first()) {
                Err(m) => Err(m),
                Ok(rest) => Ok(seq![d] + rest),
            },
        }
    }
}

/// The data of the meshes `ms` in order, or the message of the first failure.
pub open spec fn meshes_result(
    doc: GltfDocView,
    bin: ChunkHeader,
    file: Seq<u8>,
    ms: Seq<GltfMeshView>,
) -> Result<Seq<Seq<PrimitiveDataView>>, Seq<char>>
    decreases ms.len(),
{
    if ms.len() == 0 {
        Ok(Seq::empty())
    } else {
        match prims_result(doc, bin, file, ms[0].primitives) {
            Err(m) => Err(m),
            Ok(d) => match meshes_result(doc, bin, file, ms.drop_first()) {
                Err(m) => Err(m),
                Ok(rest) => Ok(seq![d] + rest),
            },
        }
    }
}

/// The primitives of one mesh.
#[derive(Debug)]
pub struct MeshData {
    pub primitives: Vec<PrimitiveData>,
}

impl MeshData {
    pub open spec fn view(&self) -> Seq<PrimitiveDataView> {
        self.primitives@.map_values(|d: PrimitiveData| d.view())
    }
}

/// A loaded model: its name and the data of its meshes.
#[derive(Debug)]
pub struct ModelData {
    pub name: String,
    pub meshes: Vec<MeshData>,
}

impl ModelData {
    pub open spec fn meshes_view(&self) -> Seq<Seq<PrimitiveDataView>> {
        self.meshes@.map_values(|m: MeshData| m.view())
    }
}

/// Loads the primitives of one mesh, in order.
pub fn load_mesh(doc: &GltfDoc, bin: &ChunkHeader, file: &[u8], mesh: &GltfMesh) -> (res: Result<
    MeshData,
    CitraError,
>)
    ensures
        match prims_result(doc.view(), *bin, file@, mesh.view().primitives) {
            Ok(v) => res matches Ok(m) && m.view() == v,
            Err(msg) => is_platform_error(res, msg),
        },
{
    let ps = &mesh.primitives;
    let n = ps.len();
    let ghost pv = mesh.view().primitives;
    let mut out: Vec<PrimitiveData> = Vec::new();
    assert(pv.skip(0) =~= pv);
    for k in 0..n
        invariant
            n == ps@.len(),
            ps == &mesh.primitives,
            pv == ps@.map_values(|p: GltfPrimitive| p.view()),
            out@.len() == k,
            prims_result(doc.view(), *bin, file@, pv) == match prims_result(
                doc.view(),
                *bin,
                file@,
                pv.skip(k as int),
            ) {
                Err(m) => Err(m),
                Ok(rest) => Ok(out@.map_values(|d: PrimitiveData| d.view()) + rest),
            },
    {
        assert(pv.skip(k as int).drop_first() =~= pv.skip(k + 1));
        assert(pv.skip(k as int)[0] == ps@[k as int].view());
        match load_primitive(doc, bin, file, &ps[k]) {
            Ok(d) => {
                let ghost before = out@.map_values(|d: PrimitiveData| d.view());
                out.push(d);
                proof {
                    assert(out@.map_values(|d: PrimitiveData| d.view()) =~= before.push(d.view()));
                    match prims_result(doc.view(), *bin, file@, pv.skip(k + 1)) {
                        Err(m) => {},
                        Ok(rest) => {
                            assert(before + (seq![d.view()] + rest) =~= before.push(d.view())
                                + rest);
                        },
                    }
                }
            },
            Err(e) => {
                return Err(e);
            },
        }
    }
    assert(pv.skip(n as int) =~= Seq::<GltfPrimitiveView>::empty());
    assert(out@.map_values(|d: PrimitiveData| d.view()) + Seq::<PrimitiveDataView>::empty()
        =~= out@.map_values(|d: PrimitiveData| d.view()));
    Ok(MeshData { primitives: out })
}

/// Loads every mesh of a model from the document and the bytes of its GLB
/// file, whose binary chunk is `bin`. The model is named by its path.
pub fn load_model(doc: &GltfDoc, bin: &ChunkHeader, file: &[u8], path: &str) -> (res: Result<
    ModelData,
    CitraError,
>)
    requires
        doc.asset_version@ == SUPPORTED_ASSET_VERSION@,
    ensures
        model_matches(res, meshes_result(doc.view(), *bin, file@, doc.view().meshes), path@),
{
    let ms = &doc.meshes;
    let n = ms.len();
    let ghost mv = doc.view().meshes;
    let mut out: Vec<MeshData> = Vec::new();
    assert(mv.skip(0) =~= mv);
    for k in 0..n
        invariant
            n == ms@.len(),
            ms == &doc.meshes,
            mv == ms@.map_values(|m: GltfMesh| m.view()),
            out@.len() == k,
            meshes_result(doc.view(), *bin, file@, mv) == match meshes_result(
                doc.view(),
                *bin,
                file@,
                mv.skip(k as int),
            ) {
                Err(m) => Err(m),
                Ok(rest) => Ok(out@.map_values(|m: MeshData| m.view()) + rest),
            },
    {
        assert(mv.skip(k as int).drop_first() =~= mv.skip(k + 1));
        assert(mv.skip(k as int)[0] == ms@[k as int].view());
        match load_mesh(doc, bin, file, &ms[k]) {
            Ok(m) => {
                let ghost before = out@.map_values(|m: MeshData| m.view());
                out.push(m);
                proof {
                    assert(out@.map_values(|m: MeshData| m.view()) =~= before.push(m.view()));
                    match meshes_result(doc.view(), *bin, file@, mv.skip(k + 1)) {
                        Err(e) => {},
                        Ok(rest) => {
                            assert(before + (seq![m.view()] + rest) =~= before.push(m.view())
                                + rest);
                        },
                    }
                }
            },
            Err(e) => {
                return Err(e);
            },
        }
    }
    assert(mv.skip(n as int) =~= Seq::<GltfMeshView>::empty());
    assert(out@.map_values(|m: MeshData| m.view()) + Seq::<Seq<PrimitiveDataView>>::empty()
        =~= out@.map_values(|m: MeshData| m.view()));
    Ok(ModelData { name: String::from_str(path), meshes: out })
}

/// What loading a model from the bytes of its GLB file gives.
#[derive(Debug)]
pub enum ModelLoad {
    /// The bytes are not a GLB file of a supported version whose chunks can
    /// be read.
    Unreadable,
    /// The JSON chunk is not a glTF document.
    InvalidJson,
    /// The document declares this asset version, which is not supported.
    UnsupportedVersion(String),
    /// The model, or the error that loading it met.
    Done(Result<ModelData, CitraError>),
}

/// `res` is the exec counterpart of the model result `spec` for a model
/// named `path`.
pub open spec fn model_matches(
    res: Result<ModelData, CitraError>,
    spec: Result<Seq<Seq<PrimitiveDataView>>, Seq<char>>,
    path: Seq<char>,
) -> bool {
    match spec {
        Ok(v) => res matches Ok(m) && m.name@ == path && m.meshes_view() == v,
        Err(msg) => is_platform_error(res, msg),
    }
}

/// The error that loading reports for a header error with message `msg`:
/// the platform error that carries the error's text.
pub open spec fn header_error(msg: Seq<char>) -> Seq<char> {
    "Platform Error: "@ + msg
}

/// Whether the two texts are equal.
fn same_text(a: &String, b: &str) -> (r: bool)
    ensures
        r == (a@ == b@),
{
    str_equal(a.as_str(), b)
}

/// The bytes of the chunk data at `start` of length `len`.
fn chunk_data(file: &[u8], start: usize, len: usize) -> (out: Vec<u8>)
    requires
        start + len <= file@.len(),
    ensures
        out@ == file@.subrange(start as int, start + len),
{
    let mut out: Vec<u8> = Vec::new();
    let n = file.len();
    for k in 0..len
        invariant
            start + len <= file@.len(),
            n == file@.len(),
            out@ == file@.subrange(start as int, start + k),
    {
        out.push(file[start + k]);
        proof {
            assert(out@ =~= file@.subrange(start as int, start + k + 1));
        }
    }
    out
}

/// Loads a model from the bytes of its GLB file, named by its path: frames
/// the file, reads its JSON chunk as a glTF document and loads every mesh.
pub fn load_from_glb(file: &[u8], path: &str) -> (res: ModelLoad)
    ensures
        !glb_readable(file@) <==> res is Unreadable,
        glb_readable(file@) && file@.len() < 12 ==> (res matches ModelLoad::Done(r)
            && is_platform_error(r, header_error("Steam size is not big enough to read the header"@))),
        glb_readable(file@) && file@.len() >= 12 ==> match glb_framing(file@) {
            GlbFraming::Complete { json: Some(j), bin: Some(b) } => match gltf_doc(
                file@.subrange(j.chunk_location as int, j.chunk_location + j.length),
            ) {
                None => res is InvalidJson,
                Some(d) => if d.asset_version != SUPPORTED_ASSET_VERSION@ {
                    res matches ModelLoad::UnsupportedVersion(v) && v@ == d.asset_version
                } else {
                    res matches ModelLoad::Done(r) && model_matches(
                        r,
                        meshes_result(d, b, file@, d.meshes),
                        path@,
                    )
                },
            },
            GlbFraming::Complete { .. } => res matches ModelLoad::Done(r) && is_platform_error(
                r,
                header_error("File '"@ + path@ + "' does not contain a chunk header"@),
            ),
            GlbFraming::TooManyJson => res matches ModelLoad::Done(r) && is_platform_error(
                r,
                header_error("File '"@ + path@ + "' contains too many json chunks"@),
            ),
            GlbFraming::TooManyBin => res matches ModelLoad::Done(r) && is_platform_error(
                r,
                header_error("File '"@ + path@ + "' contains too many bin chunks"@),
            ),
            GlbFraming::Broken => false,
        },
{
    let n = file.len();
    if !glb_can_read(file) {
        return ModelLoad::Unreadable;
    }
    let (json, bin) = match read_header(file, path) {
        Ok(chunks) => chunks,
        Err(e) => {
            return ModelLoad::Done(Err(CitraError::PlatformError(e.to_string())));
        },
    };
    proof {
        assert(file@.len() >= 12);
        assert(glb_framing(file@) matches GlbFraming::Complete { json: Some(j), bin: Some(b) } && j
            == json && b == bin);
        lemma_json_chunk_in_file(file@);
    }
    let data = chunk_data(file, json.chunk_location, json.length as usize);
    let doc = match parse_gltf(data.as_slice()) {
        Some(d) => d,
        None => {
            return ModelLoad::InvalidJson;
        },
    };
    if !same_text(&doc.asset_version, SUPPORTED_ASSET_VERSION) {
        return ModelLoad::UnsupportedVersion(doc.asset_version);
    }
    ModelLoad::Done(load_model(&doc, &bin, file, path))
}

} // verus!
