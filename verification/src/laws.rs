//! The codec's round-trip law.
//!
//! A buffer is *canonical* when it is parse-accepted, carries no trailing
//! bytes, its filename records hold no backslash and nothing but NULs from
//! the terminator on, its slot padding bytes are zero, and its enabled
//! bytes are 0 or 1.  Every buffer the writer produces has this shape.
//! For such a buffer, parsing and re-serializing reproduces every byte
//! except the two block-count bytes, which come back swapped: the count is
//! read big-endian but written little-endian, an asymmetry of the format
//! that the codec preserves rather than repairs.

use vstd::prelude::*;

use crate::block::Block;
use crate::block::Vector3;
use crate::layout::block_base;
use crate::layout::block_bytes;
use crate::layout::block_matches;
use crate::layout::blocks_prefix;
use crate::layout::enabled_bytes;
use crate::layout::filename_bytes;
use crate::layout::first_nul_from;
use crate::layout::id_low_byte;
use crate::layout::id_slot_bytes;
use crate::layout::ids_prefix;
use crate::layout::le_bytes_of;
use crate::layout::le_count_bytes;
use crate::layout::lemma_blocks_prefix_len;
use crate::layout::lemma_ids_prefix_len;
use crate::layout::lemma_table_prefix_len;
use crate::layout::lemma_word_le_roundtrip;
use crate::layout::lemma_words_prefix_len;
use crate::layout::parse_ok;
use crate::layout::record_bytes;
use crate::layout::record_seq;
use crate::layout::scan_len;
use crate::layout::serialized_bytes;
use crate::layout::slot_name;
use crate::layout::spec_count;
use crate::layout::table_bytes;
use crate::layout::table_prefix;
use crate::layout::word_at;
use crate::layout::words_prefix;
use crate::reader::blocks_match;
use crate::reader::table_matches;
use crate::table::TextureTable;
use crate::uv::UV;

verus! {

/// A filename record that re-serializes to itself: no backslash in the
/// filename part, and nothing but NULs from the terminator position on.
pub open spec fn canonical_record(rec: Seq<u8>) -> bool {
    &&& forall|i: int| 0 <= i < scan_len(rec) ==> rec[i] != 0x5c
    &&& forall|i: int| scan_len(rec) <= i < 31 ==> rec[i] == 0
}

/// A block record that re-serializes to itself: zero padding bytes in the
/// texture id and enabled slots, and an enabled byte of exactly 0 or 1.
pub open spec fn canonical_block_record(bytes: Seq<u8>, base: int) -> bool {
    &&& forall|t: int, p: int| 0 <= t < 6 && 1 <= p < 4 ==> #[trigger] bytes[base + 288 + 4 * t + p] == 0
    &&& forall|p: int| 1 <= p < 4 ==> #[trigger] bytes[base + 312 + p] == 0
    &&& bytes[base + 312] == 0 || bytes[base + 312] == 1
}

/// A parse-accepted buffer that re-serializes to itself up to the count
/// byte order: no trailing bytes, canonical filename and block records.
pub open spec fn canonical_buffer(bytes: Seq<u8>) -> bool {
    &&& parse_ok(bytes)
    &&& bytes.len() == 312 + 316 * spec_count(bytes)
    &&& forall|k: int| 0 <= k < 10 ==> canonical_record(record_seq(bytes, k))
    &&& forall|b: int| 0 <= b < spec_count(bytes) ==> canonical_block_record(bytes, block_base(b))
}

/// The terminator scan stays within the first 30 bytes.
proof fn lemma_first_nul_bounds(rec: Seq<u8>, i: int)
    requires
        0 <= i <= 30,
    ensures
        i <= first_nul_from(rec, i) <= 30,
    decreases 30 - i,
{
    if i < 30 && rec[i] != 0 {
        lemma_first_nul_bounds(rec, i + 1);
    }
}

/// Re-serializing the filename decoded from a canonical record gives the
/// record back.
proof fn lemma_record_roundtrip(rec: Seq<u8>)
    requires
        rec.len() == 31,
        canonical_record(rec),
    ensures
        record_bytes(filename_bytes(rec)) == rec,
{
    lemma_first_nul_bounds(rec, 0);
    assert(record_bytes(filename_bytes(rec)) =~= rec);
}

/// The written table prefix of decoded filenames equals the table bytes of
/// the buffer they were decoded from.
proof fn lemma_table_section(names: Seq<Seq<u8>>, bytes: Seq<u8>, k: int)
    requires
        bytes.len() >= 310,
        names.len() == 10,
        forall|kk: int| 0 <= kk < 10 ==> names[kk] == filename_bytes(record_seq(bytes, kk)),
        forall|kk: int| 0 <= kk < 10 ==> canonical_record(record_seq(bytes, kk)),
        0 <= k <= 10,
    ensures
        table_prefix(names, k) == bytes.subrange(0, 31 * k),
    decreases k,
{
    if k > 0 {
        lemma_table_section(names, bytes, k - 1);
        assert(record_seq(bytes, k - 1).len() == 31);
        lemma_record_roundtrip(record_seq(bytes, k - 1));
        assert(slot_name(names, k - 1) == names[k - 1]);
        lemma_table_prefix_len(names, k - 1);
        assert(table_prefix(names, k) =~= bytes.subrange(0, 31 * k));
    }
}

/// A word sequence read from a byte range re-serializes to that range.
proof fn lemma_words_section(ws: Seq<u32>, bytes: Seq<u8>, off: int, k: int)
    requires
        0 <= k,
        0 <= off,
        off + 4 * k <= bytes.len(),
        forall|j: int| 0 <= j < k ==> ws[j] == word_at(bytes, off + 4 * j),
    ensures
        words_prefix(ws, k) == bytes.subrange(off, off + 4 * k),
    decreases k,
{
    if k > 0 {
        lemma_words_section(ws, bytes, off, k - 1);
        lemma_words_prefix_len(ws, k - 1);
        let j = k - 1;
        lemma_word_le_roundtrip(
            bytes[off + 4 * j],
            bytes[off + 4 * j + 1],
            bytes[off + 4 * j + 2],
            bytes[off + 4 * j + 3],
        );
        assert(le_bytes_of(ws[j]) == seq![
            bytes[off + 4 * j],
            bytes[off + 4 * j + 1],
            bytes[off + 4 * j + 2],
            bytes[off + 4 * j + 3],
        ]);
        assert(words_prefix(ws, k) =~= bytes.subrange(off, off + 4 * k));
    }
}

/// Texture ids read from canonical id slots re-serialize to those slots.
proof fn lemma_ids_section(ids: Seq<i32>, bytes: Seq<u8>, off: int, k: int)
    requires
        0 <= k <= 6,
        0 <= off,
        off + 4 * k <= bytes.len(),
        k <= ids.len(),
        forall|t: int| 0 <= t < k ==> ids[t] == bytes[off + 4 * t] as i32,
        forall|t: int, p: int| 0 <= t < k && 1 <= p < 4 ==> #[trigger] bytes[off + 4 * t + p] == 0,
    ensures
        ids_prefix(ids, k) == bytes.subrange(off, off + 4 * k),
    decreases k,
{
    if k > 0 {
        lemma_ids_section(ids, bytes, off, k - 1);
        lemma_ids_prefix_len(ids, k - 1);
        let t = k - 1;
        let id = ids[t];
        assert(id & 0xff == id) by (bit_vector)
            requires
                0 <= id < 0x100,
        ;
        assert(id_low_byte(id) == bytes[off + 4 * t]);
        assert(bytes.subrange(off + 4 * t, off + 4 * t + 4) =~= id_slot_bytes(id)) by {
            assert(bytes[off + 4 * t + 1] == 0);
            assert(bytes[off + 4 * t + 2] == 0);
            assert(bytes[off + 4 * t + 3] == 0);
        }
        assert(ids_prefix(ids, k) =~= bytes.subrange(off, off + 4 * k));
    }
}

/// Adjacent subranges concatenate to the enclosing subrange.
proof fn lemma_adjacent_subranges(s: Seq<u8>, a: int, m: int, c: int)
    requires
        0 <= a <= m <= c <= s.len(),
    ensures
        s.subrange(a, m) + s.subrange(m, c) == s.subrange(a, c),
{
    assert(s.subrange(a, m) + s.subrange(m, c) =~= s.subrange(a, c));
}

/// Seven sections that cover adjacent subranges concatenate to the whole
/// block record range.
proof fn lemma_concat_sections(
    a: Seq<u8>,
    b: Seq<u8>,
    c: Seq<u8>,
    d: Seq<u8>,
    e: Seq<u8>,
    f: Seq<u8>,
    g: Seq<u8>,
    bytes: Seq<u8>,
    base: int,
)
    requires
        0 <= base,
        base + 316 <= bytes.len(),
        a == bytes.subrange(base, base + 32),
        b == bytes.subrange(base + 32, base + 64),
        c == bytes.subrange(base + 64, base + 96),
        d == bytes.subrange(base + 96, base + 192),
        e == bytes.subrange(base + 192, base + 288),
        f == bytes.subrange(base + 288, base + 312),
        g == bytes.subrange(base + 312, base + 316),
    ensures
        a + b + c + d + e + f + g == bytes.subrange(base, base + 316),
{
    lemma_adjacent_subranges(bytes, base, base + 32, base + 64);
    lemma_adjacent_subranges(bytes, base, base + 64, base + 96);
    lemma_adjacent_subranges(bytes, base, base + 96, base + 192);
    lemma_adjacent_subranges(bytes, base, base + 192, base + 288);
    lemma_adjacent_subranges(bytes, base, base + 288, base + 312);
    lemma_adjacent_subranges(bytes, base, base + 312, base + 316);
}

/// The vertex X section of a block parsed from a canonical record
/// re-serializes to the byte range it came from.
proof fn lemma_section_x(blk: Block, bytes: Seq<u8>, base: int)
    requires
        0 <= base,
        base + 316 <= bytes.len(),
        block_matches(blk, bytes, base),
    ensures
        words_prefix(blk.vertex_positions@.map_values(|p: Vector3| p.x), 8) == bytes.subrange(
            base,
            base + 32,
        ),
{
    let xs = blk.vertex_positions@.map_values(|p: Vector3| p.x);
    assert forall|j: int| 0 <= j < 8 implies xs[j] == word_at(bytes, base + 4 * j) by {
        assert(xs[j] == blk.vertex_positions@[j].x);
    }
    lemma_words_section(xs, bytes, base, 8);
}

/// The vertex Y section re-serializes to its byte range.
proof fn lemma_section_y(blk: Block, bytes: Seq<u8>, base: int)
    requires
        0 <= base,
        base + 316 <= bytes.len(),
        block_matches(blk, bytes, base),
    ensures
        words_prefix(blk.vertex_positions@.map_values(|p: Vector3| p.y), 8) == bytes.subrange(
            base + 32,
            base + 64,
        ),
{
    let ys = blk.vertex_positions@.map_values(|p: Vector3| p.y);
    assert forall|j: int| 0 <= j < 8 implies ys[j] == word_at(bytes, base + 32 + 4 * j) by {
        assert(ys[j] == blk.vertex_positions@[j].y);
    }
    lemma_words_section(ys, bytes, base + 32, 8);
}

/// The vertex Z section re-serializes to its byte range.
proof fn lemma_section_z(blk: Block, bytes: Seq<u8>, base: int)
    requires
        0 <= base,
        base + 316 <= bytes.len(),
        block_matches(blk, bytes, base),
    ensures
        words_prefix(blk.vertex_positions@.map_values(|p: Vector3| p.z), 8) == bytes.subrange(
            base + 64,
            base + 96,
        ),
{
    let zs = blk.vertex_positions@.map_values(|p: Vector3| p.z);
    assert forall|j: int| 0 <= j < 8 implies zs[j] == word_at(bytes, base + 64 + 4 * j) by {
        assert(zs[j] == blk.vertex_positions@[j].z);
    }
    lemma_words_section(zs, bytes, base + 64, 8);
}

/// The UV U section re-serializes to its byte range.
proof fn lemma_section_u(blk: Block, bytes: Seq<u8>, base: int)
    requires
        0 <= base,
        base + 316 <= bytes.len(),
        block_matches(blk, bytes, base),
    ensures
        words_prefix(blk.uvs@.map_values(|t: UV| t.u), 24) == bytes.subrange(
            base + 96,
            base + 192,
        ),
{
    let us = blk.uvs@.map_values(|t: UV| t.u);
    assert forall|i: int| 0 <= i < 24 implies us[i] == word_at(bytes, base + 96 + 4 * i) by {
        assert(us[i] == blk.uvs@[i].u);
    }
    lemma_words_section(us, bytes, base + 96, 24);
}

/// The UV V section re-serializes to its byte range.
proof fn lemma_section_v(blk: Block, bytes: Seq<u8>, base: int)
    requires
        0 <= base,
        base + 316 <= bytes.len(),
        block_matches(blk, bytes, base),
    ensures
        words_prefix(blk.uvs@.map_values(|t: UV| t.v), 24) == bytes.subrange(
            base + 192,
            base + 288,
        ),
{
    let vs = blk.uvs@.map_values(|t: UV| t.v);
    assert forall|i: int| 0 <= i < 24 implies vs[i] == word_at(bytes, base + 192 + 4 * i) by {
        assert(vs[i] == blk.uvs@[i].v);
    }
    lemma_words_section(vs, bytes, base + 192, 24);
}

/// The texture id section of a canonical record re-serializes to its byte
/// range.
proof fn lemma_section_ids(blk: Block, bytes: Seq<u8>, base: int)
    requires
        0 <= base,
        base + 316 <= bytes.len(),
        block_matches(blk, bytes, base),
        canonical_block_record(bytes, base),
    ensures
        ids_prefix(blk.texture_ids@, 6) == bytes.subrange(base + 288, base + 312),
{
    lemma_ids_section(blk.texture_ids@, bytes, base + 288, 6);
}

/// The enabled slot of a canonical record re-serializes to its byte range.
proof fn lemma_section_enabled(blk: Block, bytes: Seq<u8>, base: int)
    requires
        0 <= base,
        base + 316 <= bytes.len(),
        block_matches(blk, bytes, base),
        canonical_block_record(bytes, base),
    ensures
        enabled_bytes(blk.enabled) == bytes.subrange(base + 312, base + 316),
{
    assert(enabled_bytes(blk.enabled) =~= bytes.subrange(base + 312, base + 316)) by {
        assert(bytes[base + 312 + 1] == 0);
        assert(bytes[base + 312 + 2] == 0);
        assert(bytes[base + 312 + 3] == 0);
    }
}

/// Blocks parsed from canonical records re-serialize to the byte range
/// they came from.
proof fn lemma_blocks_section(blocks: Seq<Block>, bytes: Seq<u8>, k: int)
    requires
        0 <= k <= blocks.len(),
        blocks_match(blocks, bytes),
        bytes.len() == 312 + 316 * blocks.len(),
        forall|b: int| 0 <= b < blocks.len() ==> canonical_block_record(bytes, block_base(b)),
    ensures
        blocks_prefix(blocks, k) == bytes.subrange(312, 312 + 316 * k),
    decreases k,
{
    if k > 0 {
        lemma_blocks_section(blocks, bytes, k - 1);
        lemma_blocks_prefix_len(blocks, k - 1);
        let blk = blocks[k - 1];
        let base = block_base(k - 1);
        lemma_section_x(blk, bytes, base);
        lemma_section_y(blk, bytes, base);
        lemma_section_z(blk, bytes, base);
        lemma_section_u(blk, bytes, base);
        lemma_section_v(blk, bytes, base);
        lemma_section_ids(blk, bytes, base);
        lemma_section_enabled(blk, bytes, base);
        lemma_concat_sections(
            words_prefix(blk.vertex_positions@.map_values(|p: Vector3| p.x), 8),
            words_prefix(blk.vertex_positions@.map_values(|p: Vector3| p.y), 8),
            words_prefix(blk.vertex_positions@.map_values(|p: Vector3| p.z), 8),
            words_prefix(blk.uvs@.map_values(|t: UV| t.u), 24),
            words_prefix(blk.uvs@.map_values(|t: UV| t.v), 24),
            ids_prefix(blk.texture_ids@, 6),
            enabled_bytes(blk.enabled),
            bytes,
            base,
        );
        assert(block_bytes(blk) == bytes.subrange(base, base + 316));
        assert(blocks_prefix(blocks, k) =~= bytes.subrange(312, 312 + 316 * k));
    }
}

/// Round-trip law: parse then serialize reproduces a canonical buffer in
/// every byte except the block count, whose two bytes come back swapped —
/// the count is read big-endian and written little-endian, and this
/// asymmetry is preserved exactly, never repaired.
pub proof fn lemma_parse_write_roundtrip(t: TextureTable, blocks: Seq<Block>, bytes: Seq<u8>)
    requires
        canonical_buffer(bytes),
        table_matches(t, bytes),
        blocks_match(blocks, bytes),
    ensures
        serialized_bytes(blocks, t.names()).len() == bytes.len(),
        forall|i: int|
            0 <= i < bytes.len() && i != 310 && i != 311 ==> serialized_bytes(blocks, t.names())[i]
                == bytes[i],
        serialized_bytes(blocks, t.names())[310] == bytes[311],
        serialized_bytes(blocks, t.names())[311] == bytes[310],
{
    let names = t.names();
    let w = serialized_bytes(blocks, names);
    let n = blocks.len() as int;
    let b0 = bytes[310];
    let b1 = bytes[311];

    // The decoded names and the canonical records satisfy the table
    // section lemma slot by slot.
    assert(names.len() == 10);
    assert forall|kk: int| 0 <= kk < 10 implies names[kk] == filename_bytes(
        record_seq(bytes, kk),
    ) by {
        assert(t.entries@[kk].1@ == filename_bytes(record_seq(bytes, kk)));
    }
    lemma_table_section(names, bytes, 10);
    assert(table_bytes(names) == bytes.subrange(0, 310));

    // The count field: the value is below 2^16, so the wrap in the count
    // cast is the identity, and the little-endian bytes are the big-endian
    // bytes swapped.
    let c = (blocks.len() % 0x1_0000) as u16;
    assert(spec_count(bytes) == 0x100 * b0 + b1);
    assert(n == 0x100 * b0 + b1);
    assert(c == n);
    assert(c == 0x100 * (b0 as u16) + (b1 as u16));
    assert(c % 0x100 == b1 && c / 0x100 == b0) by (bit_vector)
        requires
            c == 0x100 * (b0 as u16) + (b1 as u16),
    ;
    assert(le_count_bytes(c) == seq![b1, b0]);

    lemma_blocks_section(blocks, bytes, n);
    assert(blocks_prefix(blocks, n) == bytes.subrange(312, 312 + 316 * n));

    lemma_table_prefix_len(names, 10);
    lemma_blocks_prefix_len(blocks, n);
    assert(w.len() == bytes.len());
    assert forall|i: int| 0 <= i < bytes.len() && i != 310 && i != 311 implies w[i]
        == bytes[i] by {
        if i < 310 {
            assert(w[i] == table_bytes(names)[i]);
            assert(bytes.subrange(0, 310)[i] == bytes[i]);
        } else {
            assert(w[i] == blocks_prefix(blocks, n)[i - 312]);
            assert(bytes.subrange(312, 312 + 316 * n)[i - 312] == bytes[i]);
        }
    }
    assert(w[310] == le_count_bytes(c)[0]);
    assert(w[311] == le_count_bytes(c)[1]);
}

} // verus!
