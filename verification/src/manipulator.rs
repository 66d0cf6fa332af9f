//! Owner of a loaded file's state and of the accumulated transform.
//!
//! The manipulator holds the texture filename table, the block list and
//! one accumulated 4×4 homogeneous transform matrix per editing session.
//! The matrix is carried as 16 float bit patterns; composing it with
//! elementary transforms and baking it into vertex data are floating-point
//! work that verified code cannot hold, so those operations live with the
//! caller, which writes the composed matrix bits and the transformed
//! vertex bits back through this type.

use vstd::prelude::*;

use crate::block::Block;
use crate::block::Vector3;
use crate::error::ParseError;
use crate::layout::has_bad_record;
use crate::layout::parse_ok;
use crate::layout::spec_count;
use crate::reader::blocks_match;
use crate::reader::table_matches;
use crate::reader::Reader;
use crate::table::TextureTable;

verus! {

/// Bit pattern of the 32-bit IEEE float 1.0, the diagonal entry of the
/// identity matrix.
pub const FLOAT_ONE_BITS: u32 = 0x3F80_0000;

/// The 16 entries of the identity matrix, in column-major order: the
/// bit pattern of 1.0 on the diagonal, the bit pattern of 0.0 elsewhere.
pub open spec fn identity_bits() -> Seq<u32> {
    Seq::new(16, |i: int| if i % 5 == 0 { FLOAT_ONE_BITS } else { 0u32 })
}

/// A 4×4 homogeneous transform matrix, held as the column-major
/// little-endian bit patterns of its 16 float entries.
#[derive(Clone, Debug)]
pub struct Matrix4 {
    pub m: Vec<u32>,
}

impl Matrix4 {
    /// A matrix always holds exactly 16 entries.
    pub open spec fn wf(&self) -> bool {
        self.m@.len() == 16
    }

    /// Creates the identity matrix.
    pub fn identity() -> (r: Matrix4)
        ensures
            r.m@ == identity_bits(),
            r.wf(),
    {
        let mut m: Vec<u32> = Vec::new();
        let mut i: usize = 0;
        while i < 16
            invariant
                0 <= i <= 16,
                m@.len() == i,
                forall|j: int| 0 <= j < i ==> m@[j] == identity_bits()[j],
            decreases 16 - i,
        {
            if i % 5 == 0 {
                m.push(FLOAT_ONE_BITS);
            } else {
                m.push(0u32);
            }
            i = i + 1;
        }
        proof {
            assert(m@ =~= identity_bits());
        }
        Matrix4 { m }
    }
}

/// Mutable editing state for one BD1 file: the texture filename table, the
/// blocks, and the accumulated transform, initialized to identity.
pub struct BD1Manipulator {
    pub texture_filenames: TextureTable,
    pub blocks: Vec<Block>,
    pub transformation_mat: Matrix4,
}

impl BD1Manipulator {
    /// The manipulator's invariant: a well-formed table, fixed-shape
    /// blocks, and a 16-entry matrix.
    pub open spec fn wf(&self) -> bool {
        &&& self.texture_filenames.wf()
        &&& forall|b: int| 0 <= b < self.blocks@.len() ==> self.blocks@[b].wf()
        &&& self.transformation_mat.wf()
    }

    /// Creates an empty manipulator: no blocks, no filenames, identity
    /// transform.
    pub fn new() -> (r: BD1Manipulator)
        ensures
            r.wf(),
            r.texture_filenames.entries@.len() == 0,
            r.blocks@.len() == 0,
            r.transformation_mat.m@ == identity_bits(),
    {
        BD1Manipulator {
            texture_filenames: TextureTable::new(),
            blocks: Vec::new(),
            transformation_mat: Matrix4::identity(),
        }
    }

    /// Parses a BD1 buffer and creates a manipulator that owns its table
    /// and blocks, with the transform initialized to identity.  Fails
    /// exactly as the parser fails; no partial state survives an error.
    pub fn new_from_bytes(bin: &Vec<u8>) -> (r: Result<BD1Manipulator, ParseError>)
        ensures
            r is Ok <==> parse_ok(bin@),
            (r matches Err(e) ==> e == (if has_bad_record(bin@) {
                ParseError::TextDecodeError
            } else {
                ParseError::TruncatedInput
            })),
            r matches Ok(m) ==> {
                &&& m.wf()
                &&& table_matches(m.texture_filenames, bin@)
                &&& blocks_match(m.blocks@, bin@)
                &&& m.transformation_mat.m@ == identity_bits()
            },
    {
        match Reader::new(bin) {
            Ok(reader) => {
                let m = BD1Manipulator {
                    texture_filenames: reader.texture_filenames,
                    blocks: reader.blocks,
                    transformation_mat: Matrix4::identity(),
                };
                proof {
                    assert forall|b: int| 0 <= b < m.blocks@.len() implies m.blocks@[b].wf() by {
                        assert(crate::layout::block_matches(
                            m.blocks@[b],
                            bin@,
                            crate::layout::block_base(b),
                        ));
                    }
                }
                Ok(m)
            },
            Err(e) => Err(e),
        }
    }

    /// Resets the accumulated transform to identity.  Blocks already baked
    /// by an earlier application are untouched.
    pub fn reset_transformation(&mut self)
        ensures
            final(self).transformation_mat.m@ == identity_bits(),
            final(self).texture_filenames == old(self).texture_filenames,
            final(self).blocks == old(self).blocks,
    {
        self.transformation_mat = Matrix4::identity();
    }

    /// Stores an accumulated transform computed by the caller.
    pub fn set_transformation(&mut self, mat: Matrix4)
        requires
            mat.wf(),
        ensures
            final(self).transformation_mat == mat,
            final(self).texture_filenames == old(self).texture_filenames,
            final(self).blocks == old(self).blocks,
    {
        self.transformation_mat = mat;
    }

    /// Replaces the vertex positions of one block, leaving its UVs,
    /// texture ids and enabled flag — and every other block — unchanged.
    /// Applying the accumulated transform replaces each block's vertices
    /// this way, one block at a time.
    pub fn set_vertex_positions(&mut self, index: usize, vertex_positions: Vec<Vector3>)
        requires
            index < old(self).blocks@.len(),
            vertex_positions@.len() == 8,
        ensures
            final(self).blocks@.len() == old(self).blocks@.len(),
            final(self).blocks@[index as int].vertex_positions == vertex_positions,
            final(self).blocks@[index as int].uvs == old(self).blocks@[index as int].uvs,
            final(self).blocks@[index as int].texture_ids == old(self).blocks@[
                index as int
            ].texture_ids,
            final(self).blocks@[index as int].enabled == old(self).blocks@[
                index as int
            ].enabled,
            forall|b: int|
                0 <= b < old(self).blocks@.len() && b != index ==> final(self).blocks@[b]
                    == old(self).blocks@[b],
            final(self).texture_filenames == old(self).texture_filenames,
            final(self).transformation_mat == old(self).transformation_mat,
    {
        let blk = &mut self.blocks[index];
        blk.vertex_positions = vertex_positions;
    }
}

} // verus!
