//! The binary glTF (GLB) container: a twelve byte header followed by chunks,
//! each a length, a type and that many bytes of data.
use vstd::prelude::*;

use crate::error::CitraError;

verus! {

/// The magic number that opens every GLB file ("glTF").
pub const GLTF_MAGIC: u32 = 0x46546C67;

/// The type of a chunk that holds the JSON document ("JSON").
pub const JSON_CHUNK_MAGIC: u32 = 0x4E4F534A;

/// The type of a chunk that holds binary buffer data ("BIN\0").
pub const BIN_CHUNK_MAGIC: u32 = 0x004E4942;

/// The oldest container version that can be read.
pub const MIN_SUPPORTED: u32 = 2;

/// The newest container version that can be read.
pub const MAX_SUPPORTED: u32 = 2;

/// The little-endian value of the four bytes of `b` at `off`.
pub open spec fn u32_le(b: Seq<u8>, off: int) -> int {
    b[off] + 256 * b[off + 1] + 65536 * b[off + 2] + 16777216 * b[off + 3]
}

/// The little-endian value of the two bytes of `b` at `off`.
pub open spec fn u16_le(b: Seq<u8>, off: int) -> int {
    b[off] + 256 * b[off + 1]
}

/// Reads the little-endian `u32` at `off`.
pub fn read_u32_le(bytes: &[u8], off: usize) -> (v: u32)
    requires
        off + 4 <= bytes@.len(),
    ensures
        v == u32_le(bytes@, off as int),
{
    let b0 = bytes[off] as u32;
    let b1 = bytes[off + 1] as u32;
    let b2 = bytes[off + 2] as u32;
    let b3 = bytes[off + 3] as u32;
    b0 + 256 * b1 + 65536 * b2 + 16777216 * b3
}

/// Reads the little-endian `u16` at `off`.
pub fn read_u16_le(bytes: &[u8], off: usize) -> (v: u16)
    requires
        off + 2 <= bytes@.len(),
    ensures
        v == u16_le(bytes@, off as int),
{
    let b0 = bytes[off] as u16;
    let b1 = bytes[off + 1] as u16;
    b0 + 256 * b1
}

/// The fixed header at the start of a GLB file.
#[derive(Clone, Copy, Debug, PartialEq, Eq, Structural)]
pub struct GlbHeader {
    pub magic: u32,
    pub version: u32,
    pub length: u32,
}

impl GlbHeader {
    /// The header stored in the first twelve bytes of `b`.
    pub open spec fn parsed(b: Seq<u8>) -> GlbHeader {
        GlbHeader {
            magic: u32_le(b, 0) as u32,
            version: u32_le(b, 4) as u32,
            length: u32_le(b, 8) as u32,
        }
    }

    /// Reads the header from the first twelve bytes.
    pub fn from_bytes(bytes: &[u8]) -> (h: GlbHeader)
        requires
            bytes@.len() >= 12,
        ensures
            h == GlbHeader::parsed(bytes@),
    {
        GlbHeader {
            magic: read_u32_le(bytes, 0),
            version: read_u32_le(bytes, 4),
            length: read_u32_le(bytes, 8),
        }
    }

    pub fn get_magic(&self) -> (m: u32)
        ensures
            m == self.magic,
    {
        self.magic
    }

    pub fn get_version(&self) -> (v: u32)
        ensures
            v == self.version,
    {
        self.version
    }

    /// The length of the whole file that the header announces.
    pub fn get_length(&self) -> (l: u32)
        ensures
            l == self.length,
    {
        self.length
    }
}

/// A chunk's header: its data length, its type and where its data starts.
#[derive(Clone, Copy, Debug, PartialEq, Eq, Structural)]
pub struct ChunkHeader {
    pub length: u32,
    pub chunk_type: u32,
    pub chunk_location: usize,
}

impl ChunkHeader {
    pub fn get_length(&self) -> (l: u32)
        ensures
            l == self.length,
    {
        self.length
    }

    pub fn get_type(&self) -> (t: u32)
        ensures
            t == self.chunk_type,
    {
        self.chunk_type
    }

    /// The offset of the chunk's first data byte.
    pub fn get_location(&self) -> (l: usize)
        ensures
            l == self.chunk_location,
    {
        self.chunk_location
    }
}

/// The chunk header stored at `pos`, whose data follows it.
pub open spec fn chunk_at(b: Seq<u8>, pos: int) -> ChunkHeader {
    ChunkHeader {
        length: u32_le(b, pos) as u32,
        chunk_type: u32_le(b, pos + 4) as u32,
        chunk_location: (pos + 8) as usize,
    }
}

/// How a walk over the chunks of a file ends.
pub enum GlbFraming {
    /// The walk reached the announced length; the JSON and binary chunks met.
    Complete { json: Option<ChunkHeader>, bin: Option<ChunkHeader> },
    /// A second JSON chunk was met.
    TooManyJson,
    /// A second binary chunk was met.
    TooManyBin,
    /// A chunk header or JSON data runs past the end of the bytes, or a chunk
    /// has an unknown type.
    Broken,
}

/// The walk over the chunks from `pos` up to the announced length `end`, with
/// the JSON and binary chunks met so far. A binary chunk's data is skipped
/// without being read; a JSON chunk's data must lie within the bytes.
pub open spec fn scan_chunks(
    b: Seq<u8>,
    end: int,
    pos: int,
    json: Option<ChunkHeader>,
    bin: Option<ChunkHeader>,
) -> GlbFraming
    decreases (if pos < end { end - pos } else { 0 }),
{
    if pos >= end {
        GlbFraming::Complete { json, bin }
    } else if pos + 8 > b.len() {
        GlbFraming::Broken
    } else {
        let c = chunk_at(b, pos);
        let next = pos + 8 + c.length;
        if c.chunk_type == BIN_CHUNK_MAGIC {
            if bin is Some {
                GlbFraming::TooManyBin
            } else {
                scan_chunks(b, end, next, json, Some(c))
            }
        } else if c.chunk_type == JSON_CHUNK_MAGIC {
            if json is Some {
                GlbFraming::TooManyJson
            } else if next > b.len() {
                GlbFraming::Broken
            } else {
                scan_chunks(b, end, next, Some(c), bin)
            }
        } else {
            GlbFraming::Broken
        }
    }
}

/// The walk over all chunks of a file, from just after the header.
pub open spec fn glb_framing(b: Seq<u8>) -> GlbFraming {
    scan_chunks(b, GlbHeader::parsed(b).length as int, 12, None, None)
}

/// The header names a GLB file of a supported version.
pub open spec fn header_supported(h: GlbHeader) -> bool {
    h.magic == GLTF_MAGIC && MIN_SUPPORTED <= h.version <= MAX_SUPPORTED
}

/// The bytes can be read without a fault: they are too short to hold a
/// header, or they hold a supported header and well-framed chunks.
pub open spec fn glb_readable(b: Seq<u8>) -> bool {
    b.len() < 12 || (header_supported(GlbHeader::parsed(b)) && !(glb_framing(b) is Broken))
}

/// `res` is a platform error with the message `msg`.
pub open spec fn is_platform_error<T>(res: Result<T, CitraError>, msg: Seq<char>) -> bool {
    match res {
        Err(CitraError::PlatformError(m)) => m@ == msg,
        _ => false,
    }
}

/// Reads the chunk header at `pos`; its data starts right after it.
pub fn read_chunk(bytes: &[u8], pos: usize) -> (c: ChunkHeader)
    requires
        pos + 8 <= bytes@.len(),
        chunk_at(bytes@, pos as int).chunk_type == BIN_CHUNK_MAGIC
            || chunk_at(bytes@, pos as int).chunk_type == JSON_CHUNK_MAGIC,
    ensures
        c == chunk_at(bytes@, pos as int),
{
    let n = bytes.len();
    assert(pos + 8 <= n);
    ChunkHeader {
        length: read_u32_le(bytes, pos),
        chunk_type: read_u32_le(bytes, pos + 4),
        chunk_location: pos + 8,
    }
}

/// Walks the chunks from just after the header up to `end`.
fn scan(bytes: &[u8], end: u32) -> (r: GlbFraming)
    ensures
        r == scan_chunks(bytes@, end as int, 12, None, None),
{
    let mut pos: u64 = 12;
    let mut json: Option<ChunkHeader> = None;
    let mut bin: Option<ChunkHeader> = None;
    while pos < end as u64
        invariant
            pos >= 12,
            scan_chunks(bytes@, end as int, 12, None, None) == scan_chunks(
                bytes@,
                end as int,
                pos as int,
                json,
                bin,
            ),
        decreases (if pos < end { end - pos } else { 0 }),
    {
        if pos + 8 > bytes.len() as u64 {
            return GlbFraming::Broken;
        }
        let p = pos as usize;
        let ty = read_u32_le(bytes, p + 4);
        if ty != BIN_CHUNK_MAGIC && ty != JSON_CHUNK_MAGIC {
            return GlbFraming::Broken;
        }
        if ty == BIN_CHUNK_MAGIC && bin.is_some() {
            return GlbFraming::TooManyBin;
        }
        if ty == JSON_CHUNK_MAGIC && json.is_some() {
            return GlbFraming::TooManyJson;
        }
        let c = read_chunk(bytes, p);
        let data_end = pos + 8 + c.length as u64;
        if ty == BIN_CHUNK_MAGIC {
            bin = Some(c);
            pos = data_end;
        } else {
            if data_end > bytes.len() as u64 {
                return GlbFraming::Broken;
            }
            json = Some(c);
            pos = data_end;
        }
    }
    GlbFraming::Complete { json, bin }
}

/// Tells whether `read_header` can be given these bytes.
pub fn glb_can_read(bytes: &[u8]) -> (ok: bool)
    ensures
        ok == glb_readable(bytes@),
{
    if bytes.len() < 12 {
        return true;
    }
    let h = GlbHeader::from_bytes(bytes);
    if h.get_magic() != GLTF_MAGIC || h.get_version() < MIN_SUPPORTED || h.get_version()
        > MAX_SUPPORTED {
        return false;
    }
    match scan(bytes, h.get_length()) {
        GlbFraming::Broken => false,
        _ => true,
    }
}

/// `a`, `b` and `c` one after the other.
fn joined(a: &str, b: &str, c: &str) -> (out: String)
    ensures
        out@ == a@ + b@ + c@,
{
    let mut s = String::from_str(a);
    s.append(b);
    s.append(c);
    s
}

/// Reads the header and finds the JSON chunk and the binary chunk of a GLB
/// file. `path` names the file in error messages.
pub fn read_header(bytes: &[u8], path: &str) -> (res: Result<(ChunkHeader, ChunkHeader), CitraError>)
    requires
        glb_readable(bytes@),
    ensures
        bytes@.len() < 12 ==> is_platform_error(
            res,
            "Steam size is not big enough to read the header"@,
        ),
        bytes@.len() >= 12 ==> match glb_framing(bytes@) {
            GlbFraming::Complete { json: Some(j), bin: Some(b) } => res == Ok::<
                (ChunkHeader, ChunkHeader),
                CitraError,
            >((j, b)),
            GlbFraming::Complete { .. } => is_platform_error(
                res,
                "File '"@ + path@ + "' does not contain a chunk header"@,
            ),
            GlbFraming::TooManyJson => is_platform_error(
                res,
                "File '"@ + path@ + "' contains too many json chunks"@,
            ),
            GlbFraming::TooManyBin => is_platform_error(
                res,
                "File '"@ + path@ + "' contains too many bin chunks"@,
            ),
            GlbFraming::Broken => false,
        },
{
    if bytes.len() < 12 {
        return Err(
            CitraError::PlatformError(
                String::from_str("Steam size is not big enough to read the header"),
            ),
        );
    }
    let h = GlbHeader::from_bytes(bytes);
    match scan(bytes, h.get_length()) {
        GlbFraming::Complete { json: Some(j), bin: Some(b) } => Ok((j, b)),
        GlbFraming::Complete { .. } => Err(
            CitraError::PlatformError(joined("File '", path, "' does not contain a chunk header")),
        ),
        GlbFraming::TooManyJson => Err(
            CitraError::PlatformError(joined("File '", path, "' contains too many json chunks")),
        ),
        GlbFraming::TooManyBin => Err(
            CitraError::PlatformError(joined("File '", path, "' contains too many bin chunks")),
        ),
        GlbFraming::Broken => Err(
            CitraError::PlatformError(joined("File '", path, "' does not contain a chunk header")),
        ),
    }
}

/// The four little-endian bytes of `v`.
pub open spec fn le_bytes(v: u32) -> Seq<u8> {
    seq![
        (v % 256) as u8,
        ((v / 256) % 256) as u8,
        ((v / 65536) % 256) as u8,
        (v / 16777216) as u8,
    ]
}

/// A chunk of type `ty` holding `data`: its header and its data.
pub open spec fn chunk_bytes(ty: u32, data: Seq<u8>) -> Seq<u8> {
    le_bytes(data.len() as u32) + le_bytes(ty) + data
}

/// A version 2 GLB file holding a JSON chunk and then a binary chunk.
pub open spec fn glb_bytes(json: Seq<u8>, bin: Seq<u8>) -> Seq<u8> {
    let body = chunk_bytes(JSON_CHUNK_MAGIC, json) + chunk_bytes(BIN_CHUNK_MAGIC, bin);
    le_bytes(GLTF_MAGIC) + le_bytes(2) + le_bytes((12 + body.len()) as u32) + body
}

/// Reading back the four bytes written for `v` gives `v`.
pub proof fn lemma_le_bytes(v: u32, b: Seq<u8>, off: int)
    requires
        0 <= off,
        off + 4 <= b.len(),
        b.subrange(off, off + 4) == le_bytes(v),
    ensures
        u32_le(b, off) == v,
{
    assert(b[off] == b.subrange(off, off + 4)[0]);
    assert(b[off + 1] == b.subrange(off, off + 4)[1]);
    assert(b[off + 2] == b.subrange(off, off + 4)[2]);
    assert(b[off + 3] == b.subrange(off, off + 4)[3]);
    let x = v as int;
    assert((x % 256) + 256 * ((x / 256) % 256) + 65536 * ((x / 65536) % 256) + 16777216 * (x
        / 16777216) == x) by (nonlinear_arith)
        requires
            0 <= x < 0x1_0000_0000,
    {
        assert(x == 256 * (x / 256) + x % 256);
        let y = x / 256;
        assert(y == 256 * (y / 256) + y % 256);
        let z = y / 256;
        assert(z == 256 * (z / 256) + z % 256);
        assert(x / 65536 == z);
        assert(x / 16777216 == z / 256);
    }
}

/// A chunk written at `off` reads back as a header of its type and length
/// whose data follows it.
pub proof fn lemma_chunk_read(ty: u32, data: Seq<u8>, b: Seq<u8>, off: int)
    requires
        0 <= off,
        off + 8 + data.len() <= b.len(),
        off + 8 <= usize::MAX,
        data.len() <= u32::MAX,
        b.subrange(off, off + 8 + data.len()) == chunk_bytes(ty, data),
    ensures
        chunk_at(b, off) == (ChunkHeader {
            length: data.len() as u32,
            chunk_type: ty,
            chunk_location: (off + 8) as usize,
        }),
{
    let c = chunk_bytes(ty, data);
    assert(b.subrange(off, off + 4) =~= c.subrange(0, 4));
    assert(c.subrange(0, 4) =~= le_bytes(data.len() as u32));
    assert(b.subrange(off + 4, off + 8) =~= c.subrange(4, 8));
    assert(c.subrange(4, 8) =~= le_bytes(ty));
    lemma_le_bytes(data.len() as u32, b, off);
    lemma_le_bytes(ty, b, off + 4);
}

/// A GLB file written with a JSON chunk and a binary chunk reads back as
/// those two chunks: the JSON data starts after the two headers, the binary
/// data right after the JSON data.
pub proof fn lemma_glb_round_trip(json: Seq<u8>, bin: Seq<u8>)
    requires
        28 + json.len() + bin.len() <= u32::MAX,
    ensures
        glb_readable(glb_bytes(json, bin)),
        glb_framing(glb_bytes(json, bin)) == (GlbFraming::Complete {
            json: Some(
                ChunkHeader {
                    length: json.len() as u32,
                    chunk_type: JSON_CHUNK_MAGIC,
                    chunk_location: 20,
                },
            ),
            bin: Some(
                ChunkHeader {
                    length: bin.len() as u32,
                    chunk_type: BIN_CHUNK_MAGIC,
                    chunk_location: (28 + json.len()) as usize,
                },
            ),
        }),
{
    let f = glb_bytes(json, bin);
    let jc = chunk_bytes(JSON_CHUNK_MAGIC, json);
    let bc = chunk_bytes(BIN_CHUNK_MAGIC, bin);
    let body = jc + bc;
    let total = (12 + body.len()) as u32;
    let h = le_bytes(GLTF_MAGIC) + le_bytes(2) + le_bytes(total);
    let j = json.len() as int;
    let e = 28 + j + bin.len();
    assert(f == h + body);
    assert(f.len() == e);
    assert(total == e);
    assert(GlbHeader::parsed(f) == (GlbHeader { magic: GLTF_MAGIC, version: 2, length: total }))
        by {
        assert(f.subrange(0, 4) =~= le_bytes(GLTF_MAGIC));
        assert(f.subrange(4, 8) =~= le_bytes(2));
        assert(f.subrange(8, 12) =~= le_bytes(total));
        lemma_le_bytes(GLTF_MAGIC, f, 0);
        lemma_le_bytes(2, f, 4);
        lemma_le_bytes(total, f, 8);
    }
    let jh = ChunkHeader {
        length: json.len() as u32,
        chunk_type: JSON_CHUNK_MAGIC,
        chunk_location: 20,
    };
    let bh = ChunkHeader {
        length: bin.len() as u32,
        chunk_type: BIN_CHUNK_MAGIC,
        chunk_location: (28 + j) as usize,
    };
    assert(chunk_at(f, 12) == jh) by {
        assert(f.subrange(12, 20 + j) =~= jc);
        lemma_chunk_read(JSON_CHUNK_MAGIC, json, f, 12);
    }
    assert(chunk_at(f, 20 + j) == bh) by {
        assert(f.subrange(20 + j, e) =~= bc);
        lemma_chunk_read(BIN_CHUNK_MAGIC, bin, f, 20 + j);
    }
    assert(scan_chunks(f, e, e, Some(jh), Some(bh)) == (GlbFraming::Complete {
        json: Some(jh),
        bin: Some(bh),
    }));
    assert(scan_chunks(f, e, 20 + j, Some(jh), None) == scan_chunks(f, e, e, Some(jh), Some(bh)));
    assert(scan_chunks(f, e, 12, None, None) == scan_chunks(f, e, 20 + j, Some(jh), None));
}


/// A walk that starts with a JSON chunk inside the bytes ends with one.
pub proof fn lemma_scan_json_fits(
    b: Seq<u8>,
    end: int,
    pos: int,
    json: Option<ChunkHeader>,
    bin: Option<ChunkHeader>,
)
    requires
        b.len() <= usize::MAX,
        pos >= 0,
        json matches Some(j) ==> j.chunk_location + j.length <= b.len(),
    ensures
        scan_chunks(b, end, pos, json, bin) matches GlbFraming::Complete { json: Some(j), .. }
            ==> j.chunk_location + j.length <= b.len(),
    decreases (if pos < end { end - pos } else { 0 }),
{
    if pos < end && pos + 8 <= b.len() {
        let c = chunk_at(b, pos);
        let next = pos + 8 + c.length;
        if c.chunk_type == BIN_CHUNK_MAGIC {
            if bin is None {
                lemma_scan_json_fits(b, end, next, json, Some(c));
            }
        } else if c.chunk_type == JSON_CHUNK_MAGIC {
            if json is None && next <= b.len() {
                assert(c.chunk_location == pos + 8);
                lemma_scan_json_fits(b, end, next, Some(c), bin);
            }
        }
    }
}

/// The JSON chunk that a walk over all chunks finds lies inside the bytes.
pub proof fn lemma_json_chunk_in_file(b: Seq<u8>)
    requires
        b.len() <= usize::MAX,
    ensures
        glb_framing(b) matches GlbFraming::Complete { json: Some(j), .. } ==> j.chunk_location
            + j.length <= b.len(),
{
    lemma_scan_json_fits(b, GlbHeader::parsed(b).length as int, 12, None, None);
}

} // verus!
