use bd1::BD1Manipulator;
use bd1::Matrix4;
use bd1::ParseError;
use bd1::Vector3;

/// Bit pattern of 1.0f32, the diagonal entry of the identity matrix.
const ONE: u32 = 0x3F80_0000;

fn identity_entries() -> Vec<u32> {
    let mut m = vec![0u32; 16];
    for i in 0..4 {
        m[5 * i] = ONE;
    }
    m
}

/// A minimal valid buffer: ten empty filename records, a zero block count.
fn empty_buffer() -> Vec<u8> {
    vec![0u8; 312]
}

/// A buffer with one all-zero block.
fn one_block_buffer() -> Vec<u8> {
    let mut bin = vec![0u8; 312 + 316];
    bin[311] = 1;
    bin
}

#[test]
fn new_manipulator_is_empty_with_identity() {
    let m = BD1Manipulator::new();
    assert_eq!(m.blocks.len(), 0);
    assert_eq!(m.texture_filenames.len(), 0);
    assert_eq!(m.transformation_mat.m, identity_entries());
}

#[test]
fn new_from_bytes_loads_state() {
    let m = BD1Manipulator::new_from_bytes(&one_block_buffer()).expect("valid buffer must load");
    assert_eq!(m.blocks.len(), 1);
    assert_eq!(m.texture_filenames.len(), 10);
    assert_eq!(m.transformation_mat.m, identity_entries());
}

#[test]
fn new_from_bytes_propagates_parse_failure() {
    // Shorter than the fixed 312-byte prefix: no partial state appears.
    let bin = vec![0u8; 200];
    assert!(matches!(
        BD1Manipulator::new_from_bytes(&bin),
        Err(ParseError::TruncatedInput)
    ));

    let mut bad = empty_buffer();
    bad[0] = 0xFF;
    assert!(matches!(
        BD1Manipulator::new_from_bytes(&bad),
        Err(ParseError::TextDecodeError)
    ));
}

#[test]
fn reset_transformation_restores_identity() {
    let mut m = BD1Manipulator::new_from_bytes(&one_block_buffer()).expect("must load");
    let mut scaled = identity_entries();
    scaled[0] = 0x4000_0000;
    m.set_transformation(Matrix4 { m: scaled.clone() });
    assert_eq!(m.transformation_mat.m, scaled);

    m.reset_transformation();
    assert_eq!(m.transformation_mat.m, identity_entries());
    // Blocks are untouched by a transform reset.
    assert_eq!(m.blocks.len(), 1);
}

#[test]
fn set_vertex_positions_replaces_one_block() {
    let mut bin = vec![0u8; 312 + 2 * 316];
    bin[311] = 2;
    let mut m = BD1Manipulator::new_from_bytes(&bin).expect("must load");

    let verts: Vec<Vector3> = (0..8).map(|j| Vector3 { x: j, y: j + 10, z: j + 20 }).collect();
    m.set_vertex_positions(1, verts.clone());

    assert_eq!(m.blocks[1].vertex_positions, verts);
    // The other block and the rest of block 1 keep their parsed state.
    assert!(m.blocks[0].vertex_positions.iter().all(|v| v.x == 0 && v.y == 0 && v.z == 0));
    assert!(m.blocks[1].uvs.iter().all(|t| t.u == 0 && t.v == 0));
    assert!(!m.blocks[1].enabled);
}
