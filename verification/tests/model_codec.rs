use wgpu_app::codec::DecodeError;
use wgpu_app::model::{
    pentagon, Model, Vertex, COLOR_OFFSET, POSITION_OFFSET, TEXTURE_COORDS_OFFSET, VERTEX_STRIDE,
};

fn le32(x: u32) -> Vec<u8> {
    x.to_le_bytes().to_vec()
}

fn sample_vertex(base: u32) -> Vertex {
    Vertex {
        position: [base, base + 1, base + 2],
        color: [base + 3, base + 4, base + 5],
        texture_coords: [base + 6, base + 7],
    }
}

#[test]
fn pentagon_has_three_triangles_over_five_corners() {
    let m = pentagon();
    assert_eq!(m.vertices.len(), 5);
    assert_eq!(m.indices, vec![0, 1, 4, 1, 2, 4, 2, 3, 4]);
    assert!(m.indices.iter().all(|&i| (i as usize) < m.vertices.len()));
}

#[test]
fn pentagon_bits_are_the_decimal_corners() {
    let m = pentagon();
    let a = m.vertices[0];
    assert_eq!(f32::from_bits(a.position[0]), -0.0868241f32);
    assert_eq!(f32::from_bits(a.position[1]), 0.49240386f32);
    assert_eq!(f32::from_bits(a.position[2]), 0.0f32);
    assert_eq!(f32::from_bits(a.color[0]), 0.5f32);
    assert_eq!(f32::from_bits(a.color[1]), 0.0f32);
    assert_eq!(f32::from_bits(a.texture_coords[0]), 0.4131759f32);
    assert_eq!(f32::from_bits(a.texture_coords[1]), 0.00759614f32);
    let e = m.vertices[4];
    assert_eq!(f32::from_bits(e.position[0]), 0.44147372f32);
    assert_eq!(f32::from_bits(e.position[1]), 0.2347359f32);
    assert_eq!(f32::from_bits(e.texture_coords[0]), 0.9414737f32);
    assert_eq!(f32::from_bits(e.texture_coords[1]), 0.2652641f32);
    let c = m.vertices[2];
    assert_eq!(f32::from_bits(c.position[1]), -0.44939706f32);
    assert_eq!(f32::from_bits(c.texture_coords[1]), 0.949397f32);
}

#[test]
fn encode_writes_counts_vertices_then_indices() {
    let m = Model { vertices: vec![sample_vertex(0x0102_0304)], indices: vec![0x0a0b, 7] };
    let bytes = m.encode_binary();
    assert_eq!(bytes.len(), 16 + 32 + 4);
    assert_eq!(&bytes[0..8], &1u64.to_le_bytes());
    assert_eq!(&bytes[8..16], &2u64.to_le_bytes());
    assert_eq!(&bytes[16..20], &[0x04, 0x03, 0x02, 0x01]);
    assert_eq!(&bytes[44..48], &le32(0x0102_0304 + 7)[..]);
    assert_eq!(&bytes[48..52], &[0x0b, 0x0a, 0x07, 0x00]);
}

#[test]
fn empty_model_is_just_the_header() {
    let m = Model { vertices: vec![], indices: vec![] };
    let bytes = m.encode_binary();
    assert_eq!(bytes, vec![0u8; 16]);
    assert_eq!(Model::decode_binary(&bytes), Ok(m));
}

#[test]
fn pentagon_round_trips_through_the_binary_format() {
    let m = pentagon();
    let bytes = m.encode_binary();
    assert_eq!(bytes.len(), 16 + 5 * 32 + 9 * 2);
    assert_eq!(Model::decode_binary(&bytes), Ok(m));
}

#[test]
fn decode_ignores_trailing_bytes_and_reencodes_what_it_read() {
    let m = Model { vertices: vec![sample_vertex(9), sample_vertex(100)], indices: vec![1, 0, 1] };
    let mut bytes = m.encode_binary();
    let read = bytes.len();
    bytes.extend_from_slice(&[0xff, 0xee, 0xdd]);
    let back = Model::decode_binary(&bytes).unwrap();
    assert_eq!(back, m);
    assert_eq!(back.encode_binary(), bytes[..read].to_vec());
}

#[test]
fn decode_reports_a_short_header() {
    assert_eq!(Model::decode_binary(&[]), Err(DecodeError::TruncatedHeader));
    assert_eq!(Model::decode_binary(&[0u8; 15]), Err(DecodeError::TruncatedHeader));
}

#[test]
fn decode_reports_missing_vertex_data() {
    let mut bytes = Vec::new();
    bytes.extend_from_slice(&2u64.to_le_bytes());
    bytes.extend_from_slice(&0u64.to_le_bytes());
    bytes.extend_from_slice(&[0u8; 63]);
    assert_eq!(Model::decode_binary(&bytes), Err(DecodeError::TruncatedVertices));
    bytes.push(0);
    assert!(Model::decode_binary(&bytes).is_ok());
}

#[test]
fn decode_reports_a_huge_vertex_count_as_missing_data() {
    let mut bytes = Vec::new();
    bytes.extend_from_slice(&u64::MAX.to_le_bytes());
    bytes.extend_from_slice(&0u64.to_le_bytes());
    assert_eq!(Model::decode_binary(&bytes), Err(DecodeError::TruncatedVertices));
}

#[test]
fn decode_reports_missing_index_data() {
    let m = Model { vertices: vec![sample_vertex(1)], indices: vec![0, 0, 0] };
    let bytes = m.encode_binary();
    let short = &bytes[..bytes.len() - 1];
    assert_eq!(Model::decode_binary(short), Err(DecodeError::TruncatedIndices));
}

#[test]
fn buffer_contents_follow_the_declared_layout() {
    let m = Model { vertices: vec![sample_vertex(0), sample_vertex(0x1000)], indices: vec![1, 0] };
    let vb = m.vertex_data();
    assert_eq!(vb.len() as u64, VERTEX_STRIDE * 2);
    let at = VERTEX_STRIDE as usize;
    let v = m.vertices[1];
    let p = POSITION_OFFSET as usize;
    let c = COLOR_OFFSET as usize;
    let t = TEXTURE_COORDS_OFFSET as usize;
    assert_eq!(&vb[at + p + 4..at + p + 8], &le32(v.position[1])[..]);
    assert_eq!(&vb[at + c..at + c + 4], &le32(v.color[0])[..]);
    assert_eq!(&vb[at + t + 4..at + t + 8], &le32(v.texture_coords[1])[..]);
    assert_eq!(m.index_data(), vec![1, 0, 0, 0]);
    assert_eq!(m.num_indices(), 2);
    assert_eq!(&m.encode_binary()[16..16 + 64], &vb[..]);
}
