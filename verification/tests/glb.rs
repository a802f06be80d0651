use citra_engine::error::CitraError;
use citra_engine::glb::{
    glb_can_read, read_chunk, read_header, read_u16_le, read_u32_le, ChunkHeader, GlbHeader,
    BIN_CHUNK_MAGIC, GLTF_MAGIC, JSON_CHUNK_MAGIC,
};

fn push_u32(out: &mut Vec<u8>, v: u32) {
    out.extend_from_slice(&v.to_le_bytes());
}

/// A GLB file with the given chunks; the header announces the whole length.
fn glb_file(version: u32, chunks: &[(u32, Vec<u8>)]) -> Vec<u8> {
    let mut body = Vec::new();
    for (ty, data) in chunks {
        push_u32(&mut body, data.len() as u32);
        push_u32(&mut body, *ty);
        body.extend_from_slice(data);
    }
    let mut out = Vec::new();
    push_u32(&mut out, GLTF_MAGIC);
    push_u32(&mut out, version);
    push_u32(&mut out, (12 + body.len()) as u32);
    out.extend_from_slice(&body);
    out
}

fn platform_message<T>(res: Result<T, CitraError>) -> String {
    match res {
        Err(CitraError::PlatformError(m)) => m,
        _ => panic!("expected a platform error"),
    }
}

#[test]
fn little_endian_reads() {
    let bytes = [0x67u8, 0x6C, 0x54, 0x46, 0x01, 0x02];
    assert_eq!(read_u32_le(&bytes, 0), 0x46546C67);
    assert_eq!(read_u32_le(&bytes, 2), 0x02014654);
    assert_eq!(read_u16_le(&bytes, 4), 0x0201);
}

#[test]
fn header_fields() {
    let file = glb_file(2, &[]);
    let h = GlbHeader::from_bytes(&file);
    assert_eq!(h.get_magic(), GLTF_MAGIC);
    assert_eq!(h.get_version(), 2);
    assert_eq!(h.get_length(), 12);
}

#[test]
fn finds_json_and_bin_chunks() {
    let json = b"{\"asset\":{}}".to_vec();
    let bin = vec![1u8, 2, 3, 4, 5, 6, 7, 8];
    let file = glb_file(2, &[(JSON_CHUNK_MAGIC, json.clone()), (BIN_CHUNK_MAGIC, bin.clone())]);
    assert!(glb_can_read(&file));
    let (j, b) = read_header(&file, "model").unwrap();
    assert_eq!(j.get_type(), JSON_CHUNK_MAGIC);
    assert_eq!(j.get_length(), json.len() as u32);
    assert_eq!(j.get_location(), 20);
    assert_eq!(b.get_type(), BIN_CHUNK_MAGIC);
    assert_eq!(b.get_length(), 8);
    assert_eq!(b.get_location(), 28 + json.len());
    assert_eq!(&file[b.get_location()..b.get_location() + 8], &bin[..]);
}

#[test]
fn bin_chunk_may_come_first() {
    let file = glb_file(
        2,
        &[(BIN_CHUNK_MAGIC, vec![9u8; 4]), (JSON_CHUNK_MAGIC, b"{}".to_vec())],
    );
    let (j, b) = read_header(&file, "m").unwrap();
    assert_eq!(b.get_location(), 20);
    assert_eq!(j.get_location(), 32);
}

#[test]
fn read_chunk_at_position() {
    let file = glb_file(2, &[(JSON_CHUNK_MAGIC, b"{}".to_vec())]);
    let c = read_chunk(&file, 12);
    assert_eq!(
        c,
        ChunkHeader {
            length: 2,
            chunk_type: JSON_CHUNK_MAGIC,
            chunk_location: 20
        }
    );
}

#[test]
fn too_short_for_a_header() {
    let bytes = vec![0u8; 11];
    assert!(glb_can_read(&bytes));
    assert_eq!(
        platform_message(read_header(&bytes, "x")),
        "Steam size is not big enough to read the header"
    );
}

#[test]
fn too_many_json_chunks() {
    let file = glb_file(
        2,
        &[(JSON_CHUNK_MAGIC, b"{}".to_vec()), (JSON_CHUNK_MAGIC, b"{}".to_vec())],
    );
    assert_eq!(
        platform_message(read_header(&file, "two.glb")),
        "File 'two.glb' contains too many json chunks"
    );
}

#[test]
fn too_many_bin_chunks() {
    let file = glb_file(2, &[(BIN_CHUNK_MAGIC, vec![0; 4]), (BIN_CHUNK_MAGIC, vec![0; 4])]);
    assert_eq!(
        platform_message(read_header(&file, "b")),
        "File 'b' contains too many bin chunks"
    );
}

#[test]
fn missing_bin_chunk() {
    let file = glb_file(2, &[(JSON_CHUNK_MAGIC, b"{}".to_vec())]);
    assert_eq!(
        platform_message(read_header(&file, "j")),
        "File 'j' does not contain a chunk header"
    );
}

#[test]
fn unreadable_files_are_detected() {
    let mut bad_magic = glb_file(2, &[]);
    bad_magic[0] = 0;
    assert!(!glb_can_read(&bad_magic));
    assert!(!glb_can_read(&glb_file(1, &[])));
    assert!(!glb_can_read(&glb_file(3, &[])));
    assert!(!glb_can_read(&glb_file(2, &[(0x1234, vec![0; 4])])));
    let mut truncated = glb_file(2, &[(JSON_CHUNK_MAGIC, b"{}".to_vec())]);
    truncated.truncate(21);
    assert!(!glb_can_read(&truncated));
}
