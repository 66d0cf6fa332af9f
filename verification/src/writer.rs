//! Serializer for BD1 buffers.

use vstd::prelude::*;

use crate::block::Block;
use crate::layout::block_bytes;
use crate::layout::blocks_prefix;
use crate::layout::enabled_bytes;
use crate::layout::id_slot_bytes;
use crate::layout::ids_prefix;
use crate::layout::le_bytes_of;
use crate::layout::le_count_bytes;
use crate::layout::lemma_blocks_prefix_len;
use crate::layout::lemma_table_prefix_len;
use crate::layout::record_bytes;
use crate::layout::serialized_bytes;
use crate::layout::slot_name;
use crate::layout::table_bytes;
use crate::layout::table_prefix;
use crate::layout::words_prefix;
use crate::table::TextureTable;

verus! {

/// Serializer for the BD1 byte layout.
///
/// Serialization is a pure function of the blocks and the texture table;
/// writing the buffer to persistent storage is a boundary operation left
/// to the caller.
pub struct Writer;

impl Writer {
    /// Appends the 310-byte texture filename table to `bin`: one 31-byte
    /// record per slot, fed by the table's entries in ascending key order.
    /// Only the first ten entries are emitted — with more, the ten lowest
    /// keys win and the surplus is dropped silently — and missing slots
    /// are padded with all-zero records.  Each filename is clipped to 30
    /// bytes; the final record byte is never written from content.
    pub fn add_texture_filenames_to_bin(bin: &mut Vec<u8>, texture_filenames: &TextureTable)
        requires
            texture_filenames.wf(),
        ensures
            final(bin)@ == old(bin)@ + table_bytes(texture_filenames.names()),
    {
        let ghost names = texture_filenames.names();
        let mut k: usize = 0;
        while k < 10
            invariant
                texture_filenames.wf(),
                names == texture_filenames.names(),
                0 <= k <= 10,
                bin@ == old(bin)@ + table_prefix(names, k as int),
            decreases 10 - k,
        {
            let ghost start = bin@;
            if k < texture_filenames.entries.len() {
                let name: &Vec<u8> = &texture_filenames.entries[k].1;
                let limit: usize = if name.len() < 30 {
                    name.len()
                } else {
                    30
                };
                let mut i: usize = 0;
                while i < limit
                    invariant
                        limit <= name@.len(),
                        limit <= 30,
                        0 <= i <= limit,
                        bin@.len() == start.len() + i,
                        forall|idx: int| 0 <= idx < start.len() ==> bin@[idx] == start[idx],
                        forall|idx: int|
                            start.len() <= idx < start.len() + i ==> bin@[idx] == name@[
                                idx - start.len()
                            ],
                    decreases limit - i,
                {
                    bin.push(name[i]);
                    i = i + 1;
                }
                while i < 31
                    invariant
                        limit <= name@.len(),
                        limit <= 30,
                        limit <= i <= 31,
                        limit == name@.len() || limit == 30,
                        bin@.len() == start.len() + i,
                        forall|idx: int| 0 <= idx < start.len() ==> bin@[idx] == start[idx],
                        forall|idx: int|
                            start.len() <= idx < start.len() + limit ==> bin@[idx] == name@[
                                idx - start.len()
                            ],
                        forall|idx: int|
                            start.len() + limit <= idx < start.len() + i ==> bin@[idx] == 0u8,
                    decreases 31 - i,
                {
                    bin.push(0u8);
                    i = i + 1;
                }
                proof {
                    assert(names[k as int] == name@);
                    assert(bin@ =~= start + record_bytes(slot_name(names, k as int)));
                }
            } else {
                let mut i: usize = 0;
                while i < 31
                    invariant
                        0 <= i <= 31,
                        bin@.len() == start.len() + i,
                        forall|idx: int| 0 <= idx < start.len() ==> bin@[idx] == start[idx],
                        forall|idx: int|
                            start.len() <= idx < start.len() + i ==> bin@[idx] == 0u8,
                    decreases 31 - i,
                {
                    bin.push(0u8);
                    i = i + 1;
                }
                proof {
                    assert(bin@ =~= start + record_bytes(slot_name(names, k as int)));
                }
            }
            k = k + 1;
        }
    }

    /// Serializes blocks and texture table into a fresh BD1 buffer.
    ///
    /// The block count is written as a little-endian 16-bit integer even
    /// though the reader consumes it big-endian — a latent asymmetry of
    /// the format that is reproduced bit for bit, never corrected.  A
    /// block count beyond 65535 wraps in the count field while every block
    /// is still emitted, and out-of-range texture ids narrow silently to
    /// their low byte: the writer validates nothing.
    pub fn write(blocks: &Vec<Block>, texture_filenames: &TextureTable) -> (bin: Vec<u8>)
        requires
            texture_filenames.wf(),
            forall|b: int| 0 <= b < blocks@.len() ==> blocks@[b].wf(),
        ensures
            bin@ == serialized_bytes(blocks@, texture_filenames.names()),
            bin@.len() == 312 + 316 * blocks@.len(),
    {
        let mut bin: Vec<u8> = Vec::new();

        Writer::add_texture_filenames_to_bin(&mut bin, texture_filenames);

        let count: u16 = (blocks.len() % 0x1_0000) as u16;
        bin.push((count % 0x100) as u8);
        bin.push((count / 0x100) as u8);
        proof {
            assert(bin@ =~= table_bytes(texture_filenames.names()) + le_count_bytes(count));
        }

        let ghost mid = bin@;
        let n = blocks.len();
        let mut b: usize = 0;
        while b < n
            invariant
                n == blocks@.len(),
                forall|bb: int| 0 <= bb < n ==> blocks@[bb].wf(),
                0 <= b <= n,
                bin@ == mid + blocks_prefix(blocks@, b as int),
            decreases n - b,
        {
            write_block(&mut bin, &blocks[b]);
            proof {
                assert(bin@ =~= mid + blocks_prefix(blocks@, b + 1));
            }
            b = b + 1;
        }

        proof {
            assert(bin@ =~= serialized_bytes(blocks@, texture_filenames.names()));
            lemma_table_prefix_len(texture_filenames.names(), 10);
            lemma_blocks_prefix_len(blocks@, blocks@.len() as int);
        }
        bin
    }
}

/// Appends the 316-byte record of one block: vertex X, Y and Z component
/// words, UV U and V component words, six 4-byte texture id slots, and the
/// 4-byte enabled slot.  Slot padding bytes are always written as zero.
fn write_block(bin: &mut Vec<u8>, blk: &Block)
    requires
        blk.wf(),
    ensures
        final(bin)@ == old(bin)@ + block_bytes(*blk),
{
    let ghost xs = blk.vertex_positions@.map_values(|p: crate::block::Vector3| p.x);
    let ghost ys = blk.vertex_positions@.map_values(|p: crate::block::Vector3| p.y);
    let ghost zs = blk.vertex_positions@.map_values(|p: crate::block::Vector3| p.z);
    let ghost us = blk.uvs@.map_values(|t: crate::uv::UV| t.u);
    let ghost vs = blk.uvs@.map_values(|t: crate::uv::UV| t.v);

    let ghost start = bin@;
    let mut j: usize = 0;
    while j < 8
        invariant
            blk.wf(),
            xs == blk.vertex_positions@.map_values(|p: crate::block::Vector3| p.x),
            0 <= j <= 8,
            bin@ == start + words_prefix(xs, j as int),
        decreases 8 - j,
    {
        push_word(bin, blk.vertex_positions[j].x);
        j = j + 1;
    }
    let mut j: usize = 0;
    while j < 8
        invariant
            blk.wf(),
            ys == blk.vertex_positions@.map_values(|p: crate::block::Vector3| p.y),
            0 <= j <= 8,
            bin@ == start + words_prefix(xs, 8) + words_prefix(ys, j as int),
        decreases 8 - j,
    {
        push_word(bin, blk.vertex_positions[j].y);
        j = j + 1;
    }
    let mut j: usize = 0;
    while j < 8
        invariant
            blk.wf(),
            zs == blk.vertex_positions@.map_values(|p: crate::block::Vector3| p.z),
            0 <= j <= 8,
            bin@ == start + words_prefix(xs, 8) + words_prefix(ys, 8) + words_prefix(
                zs,
                j as int,
            ),
        decreases 8 - j,
    {
        push_word(bin, blk.vertex_positions[j].z);
        j = j + 1;
    }

    let ghost mid1 = start + words_prefix(xs, 8) + words_prefix(ys, 8) + words_prefix(zs, 8);
    let mut i: usize = 0;
    while i < 24
        invariant
            blk.wf(),
            us == blk.uvs@.map_values(|t: crate::uv::UV| t.u),
            0 <= i <= 24,
            bin@ == mid1 + words_prefix(us, i as int),
        decreases 24 - i,
    {
        push_word(bin, blk.uvs[i].u);
        i = i + 1;
    }
    let mut i: usize = 0;
    while i < 24
        invariant
            blk.wf(),
            vs == blk.uvs@.map_values(|t: crate::uv::UV| t.v),
            0 <= i <= 24,
            bin@ == mid1 + words_prefix(us, 24) + words_prefix(vs, i as int),
        decreases 24 - i,
    {
        push_word(bin, blk.uvs[i].v);
        i = i + 1;
    }

    let ghost mid2 = mid1 + words_prefix(us, 24) + words_prefix(vs, 24);
    let mut t: usize = 0;
    while t < 6
        invariant
            blk.wf(),
            0 <= t <= 6,
            bin@ == mid2 + ids_prefix(blk.texture_ids@, t as int),
        decreases 6 - t,
    {
        let ghost before = bin@;
        let id: i32 = blk.texture_ids[t];
        proof {
            assert(0 <= (id & 0xff) < 0x100) by (bit_vector);
        }
        bin.push((id & 0xff) as u8);
        bin.push(0u8);
        bin.push(0u8);
        bin.push(0u8);
        proof {
            assert(bin@ =~= before + id_slot_bytes(id));
        }
        t = t + 1;
    }

    let ghost before = bin@;
    if blk.enabled {
        bin.push(1u8);
    } else {
        bin.push(0u8);
    }
    bin.push(0u8);
    bin.push(0u8);
    bin.push(0u8);
    proof {
        assert(bin@ =~= before + enabled_bytes(blk.enabled));
        assert(bin@ =~= start + block_bytes(*blk));
    }
}

/// Appends the four little-endian bytes of one 32-bit word.
fn push_word(bin: &mut Vec<u8>, w: u32)
    ensures
        final(bin)@ == old(bin)@ + le_bytes_of(w),
{
    let ghost before = bin@;
    bin.push((w % 0x100) as u8);
    bin.push((w / 0x100 % 0x100) as u8);
    bin.push((w / 0x1_0000 % 0x100) as u8);
    bin.push((w / 0x100_0000) as u8);
    proof {
        assert(bin@ =~= before + le_bytes_of(w));
    }
}

} // verus!
