//! The geometric primitive of the format: a cuboid block.

use vstd::prelude::*;

use crate::uv::UV;

verus! {

/// A 3-component vector of 32-bit float bit patterns.
///
/// Each component is the little-endian bit pattern of the IEEE float stored
/// in the file; the codec never interprets it numerically.
#[derive(Clone, Copy, Debug, PartialEq, Eq, Structural)]
pub struct Vector3 {
    pub x: u32,
    pub y: u32,
    pub z: u32,
}

/// One cuboid geometry unit: 8 corner vertices, 24 per-face texture
/// coordinates, 6 face texture references, and an enabled flag.
///
/// Texture ids index the ten-slot texture filename table (0–9), but a block
/// does not validate that: out-of-range ids pass through unchecked.
#[derive(Clone, Debug)]
pub struct Block {
    pub vertex_positions: Vec<Vector3>,
    pub uvs: Vec<UV>,
    pub texture_ids: Vec<i32>,
    pub enabled: bool,
}

impl Block {
    /// The fixed-shape invariant: exactly 8 vertices, 24 UVs and 6 texture
    /// ids, for the lifetime of the block.
    pub open spec fn wf(&self) -> bool {
        &&& self.vertex_positions@.len() == 8
        &&& self.uvs@.len() == 24
        &&& self.texture_ids@.len() == 6
    }

    /// Creates a zero-filled block with the enabled flag set.
    pub fn new() -> (r: Block)
        ensures
            r.wf(),
            forall|j: int| 0 <= j < 8 ==> r.vertex_positions@[j] == (Vector3 { x: 0u32, y: 0u32, z: 0u32 }),
            forall|i: int| 0 <= i < 24 ==> r.uvs@[i] == (UV { u: 0u32, v: 0u32 }),
            forall|t: int| 0 <= t < 6 ==> r.texture_ids@[t] == 0i32,
            r.enabled,
    {
        let mut vertex_positions: Vec<Vector3> = Vec::new();
        for _k in 0..8
            invariant
                vertex_positions@.len() == _k,
                forall|j: int| 0 <= j < _k ==> vertex_positions@[j] == (Vector3 { x: 0u32, y: 0u32, z: 0u32 }),
        {
            vertex_positions.push(Vector3 { x: 0, y: 0, z: 0 });
        }

        let mut uvs: Vec<UV> = Vec::new();
        for _k in 0..24
            invariant
                uvs@.len() == _k,
                forall|i: int| 0 <= i < _k ==> uvs@[i] == (UV { u: 0u32, v: 0u32 }),
        {
            uvs.push(UV { u: 0, v: 0 });
        }

        let mut texture_ids: Vec<i32> = Vec::new();
        for _k in 0..6
            invariant
                texture_ids@.len() == _k,
                forall|t: int| 0 <= t < _k ==> texture_ids@[t] == 0i32,
        {
            texture_ids.push(0);
        }

        Block { vertex_positions, uvs, texture_ids, enabled: true }
    }
}

} // verus!
