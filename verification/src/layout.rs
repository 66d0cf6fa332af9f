//! Mathematical description of the BD1 byte layout.
//!
//! Offsets are sequential from 0 with no alignment padding:
//! ten 31-byte texture filename records (bytes 0..310), a 2-byte block
//! count (read big-endian, written little-endian), then one 316-byte
//! record per block.

use vstd::prelude::*;

use crate::block::Block;

verus! {

/// Offset of the 2-byte block count: after the ten 31-byte filename
/// records.
pub const COUNT_OFFSET: usize = 310;

/// The value of four little-endian bytes as an unsigned 32-bit quantity.
pub open spec fn word_of_le(b0: u8, b1: u8, b2: u8, b3: u8) -> int {
    b0 + 0x100 * b1 + 0x1_0000 * b2 + 0x100_0000 * b3
}

/// The little-endian word starting at offset `off`.
pub open spec fn word_at(bytes: Seq<u8>, off: int) -> int {
    word_of_le(bytes[off], bytes[off + 1], bytes[off + 2], bytes[off + 3])
}

/// The four little-endian bytes of a 32-bit word.
pub open spec fn le_bytes_of(w: u32) -> Seq<u8> {
    seq![
        (w % 0x100) as u8,
        (w / 0x100 % 0x100) as u8,
        (w / 0x1_0000 % 0x100) as u8,
        (w / 0x100_0000) as u8,
    ]
}

/// The value of the 2-byte big-endian block count field.
pub open spec fn count_of_be(b0: u8, b1: u8) -> int {
    0x100 * b0 + b1
}

/// The two little-endian bytes of a 16-bit count.
pub open spec fn le_count_bytes(n: u16) -> Seq<u8> {
    seq![(n % 0x100) as u8, (n / 0x100) as u8]
}

/// The block count a buffer of at least 312 bytes declares.
pub open spec fn spec_count(bytes: Seq<u8>) -> int {
    count_of_be(bytes[COUNT_OFFSET as int], bytes[COUNT_OFFSET + 1])
}

/// The `k`-th 31-byte texture filename record of a buffer.
pub open spec fn record_seq(bytes: Seq<u8>, k: int) -> Seq<u8> {
    bytes.subrange(31 * k, 31 * k + 31)
}

/// Index of the first NUL byte of `rec` at or after `i`, scanning only the
/// first 30 bytes; 30 when none is found.  Byte 30 (0-indexed) is reserved
/// space that the terminator scan never inspects.
pub open spec fn first_nul_from(rec: Seq<u8>, i: int) -> int
    decreases 30 - i,
{
    if i < 0 || i >= 30 {
        30
    } else if rec[i] == 0 {
        i
    } else {
        first_nul_from(rec, i + 1)
    }
}

/// Length of the filename held by a 31-byte record.
pub open spec fn scan_len(rec: Seq<u8>) -> int {
    first_nul_from(rec, 0)
}

/// Path-separator normalization: backslash becomes forward slash.
pub open spec fn norm_byte(b: u8) -> u8 {
    if b == 0x5c {
        0x2f
    } else {
        b
    }
}

/// The decoded filename of a 31-byte record: the bytes before the first NUL
/// among the first 30, each backslash replaced by a forward slash.
pub open spec fn filename_bytes(rec: Seq<u8>) -> Seq<u8> {
    Seq::new(scan_len(rec) as nat, |i: int| norm_byte(rec[i]))
}

/// Whether some complete filename record of the buffer is not valid UTF-8.
/// A record truncated by the end of the buffer is a truncation failure, not
/// a decode failure, so only complete records count here.
pub open spec fn has_bad_record(bytes: Seq<u8>) -> bool {
    exists|k: int|
        0 <= k < 10 && 31 * (k + 1) <= bytes.len() && !vstd::utf8::valid_utf8(
            record_seq(bytes, k),
        )
}

/// Whether a buffer parses successfully: every filename record decodes and
/// the buffer is long enough for the count field and every declared block.
/// Trailing bytes beyond the last declared block are ignored.
pub open spec fn parse_ok(bytes: Seq<u8>) -> bool {
    &&& !has_bad_record(bytes)
    &&& bytes.len() >= 312
    &&& bytes.len() >= 312 + 316 * spec_count(bytes)
}

/// Offset of the `b`-th block record.
pub open spec fn block_base(b: int) -> int {
    312 + 316 * b
}

/// Whether a block holds exactly the fields of the 316-byte record at
/// offset `base`: per-component vertex words, per-component UV words, the
/// first byte of each 4-byte texture id slot widened to a signed 32-bit
/// integer, and the first byte of the enabled slot read as a flag.  The
/// three padding bytes of each id slot and of the enabled slot are dead
/// space and carry no information.
pub open spec fn block_matches(blk: Block, bytes: Seq<u8>, base: int) -> bool {
    &&& blk.wf()
    &&& forall|j: int| 0 <= j < 8 ==> blk.vertex_positions@[j].x == word_at(bytes, base + 4 * j)
    &&& forall|j: int|
        0 <= j < 8 ==> blk.vertex_positions@[j].y == word_at(bytes, base + 32 + 4 * j)
    &&& forall|j: int|
        0 <= j < 8 ==> blk.vertex_positions@[j].z == word_at(bytes, base + 64 + 4 * j)
    &&& forall|i: int| 0 <= i < 24 ==> blk.uvs@[i].u == word_at(bytes, base + 96 + 4 * i)
    &&& forall|i: int| 0 <= i < 24 ==> blk.uvs@[i].v == word_at(bytes, base + 192 + 4 * i)
    &&& forall|t: int| 0 <= t < 6 ==> blk.texture_ids@[t] == bytes[base + 288 + 4 * t] as i32
    &&& blk.enabled == (bytes[base + 312] != 0)
}

/// The low byte of a texture id, as the writer narrows it: values outside
/// 0–255 truncate silently.
pub open spec fn id_low_byte(id: i32) -> u8 {
    (id & 0xff) as u8
}

/// One written filename record: the first 30 bytes of the name (shorter
/// names NUL-padded), then a final zero byte that is never written from
/// content.
pub open spec fn record_bytes(name: Seq<u8>) -> Seq<u8> {
    Seq::new(31, |i: int| if i < name.len() && i < 30 { name[i] } else { 0u8 })
}

/// The name the writer emits into slot `k`: the `k`-th table entry when one
/// exists, the empty name (an all-zero record) otherwise.
pub open spec fn slot_name(names: Seq<Seq<u8>>, k: int) -> Seq<u8> {
    if 0 <= k < names.len() {
        names[k]
    } else {
        Seq::empty()
    }
}

/// The first `k` written filename records, concatenated.
pub open spec fn table_prefix(names: Seq<Seq<u8>>, k: int) -> Seq<u8>
    decreases k,
{
    if k <= 0 {
        Seq::empty()
    } else {
        table_prefix(names, k - 1) + record_bytes(slot_name(names, k - 1))
    }
}

/// The 310 bytes of the written texture filename table: ten records, fed by
/// the given names in order, padded with all-zero records past the end of
/// the list.  Callers pass at most ten names: surplus entries are dropped
/// before this point.
pub open spec fn table_bytes(names: Seq<Seq<u8>>) -> Seq<u8> {
    table_prefix(names, 10)
}

/// The first `k` words of a sequence, serialized little-endian.
pub open spec fn words_prefix(ws: Seq<u32>, k: int) -> Seq<u8>
    decreases k,
{
    if k <= 0 {
        Seq::empty()
    } else {
        words_prefix(ws, k - 1) + le_bytes_of(ws[k - 1])
    }
}

/// One written 4-byte texture id slot: the id's low byte, then three zero
/// padding bytes.
pub open spec fn id_slot_bytes(id: i32) -> Seq<u8> {
    seq![id_low_byte(id), 0u8, 0u8, 0u8]
}

/// The first `k` written texture id slots of a block.
pub open spec fn ids_prefix(ids: Seq<i32>, k: int) -> Seq<u8>
    decreases k,
{
    if k <= 0 {
        Seq::empty()
    } else {
        ids_prefix(ids, k - 1) + id_slot_bytes(ids[k - 1])
    }
}

/// The written 4-byte enabled slot: one flag byte, three zero padding bytes.
pub open spec fn enabled_bytes(enabled: bool) -> Seq<u8> {
    seq![if enabled { 1u8 } else { 0u8 }, 0u8, 0u8, 0u8]
}

/// The 316 bytes of one written block record, in field order: vertex X, Y
/// and Z components, UV U and V components, texture id slots, enabled slot.
pub open spec fn block_bytes(blk: Block) -> Seq<u8> {
    words_prefix(blk.vertex_positions@.map_values(|p: crate::block::Vector3| p.x), 8)
        + words_prefix(blk.vertex_positions@.map_values(|p: crate::block::Vector3| p.y), 8)
        + words_prefix(blk.vertex_positions@.map_values(|p: crate::block::Vector3| p.z), 8)
        + words_prefix(blk.uvs@.map_values(|t: crate::uv::UV| t.u), 24)
        + words_prefix(blk.uvs@.map_values(|t: crate::uv::UV| t.v), 24)
        + ids_prefix(blk.texture_ids@, 6)
        + enabled_bytes(blk.enabled)
}

/// The first `k` written block records, concatenated.
pub open spec fn blocks_prefix(blocks: Seq<Block>, k: int) -> Seq<u8>
    decreases k,
{
    if k <= 0 {
        Seq::empty()
    } else {
        blocks_prefix(blocks, k - 1) + block_bytes(blocks[k - 1])
    }
}

/// The whole written buffer for a block list and an ordered name list:
/// the 310-byte table, the 2-byte little-endian count, then every block.
pub open spec fn serialized_bytes(blocks: Seq<Block>, names: Seq<Seq<u8>>) -> Seq<u8> {
    table_bytes(names) + le_count_bytes((blocks.len() % 0x1_0000) as u16) + blocks_prefix(
        blocks,
        blocks.len() as int,
    )
}

/// A words prefix is 4 bytes per word.
pub proof fn lemma_words_prefix_len(ws: Seq<u32>, k: int)
    requires
        0 <= k,
    ensures
        words_prefix(ws, k).len() == 4 * k,
    decreases k,
{
    if k > 0 {
        lemma_words_prefix_len(ws, k - 1);
    }
}

/// An ids prefix is 4 bytes per id.
pub proof fn lemma_ids_prefix_len(ids: Seq<i32>, k: int)
    requires
        0 <= k,
    ensures
        ids_prefix(ids, k).len() == 4 * k,
    decreases k,
{
    if k > 0 {
        lemma_ids_prefix_len(ids, k - 1);
    }
}

/// A written block record is exactly 316 bytes.
pub proof fn lemma_block_bytes_len(blk: Block)
    ensures
        block_bytes(blk).len() == 316,
{
    lemma_words_prefix_len(blk.vertex_positions@.map_values(|p: crate::block::Vector3| p.x), 8);
    lemma_words_prefix_len(blk.vertex_positions@.map_values(|p: crate::block::Vector3| p.y), 8);
    lemma_words_prefix_len(blk.vertex_positions@.map_values(|p: crate::block::Vector3| p.z), 8);
    lemma_words_prefix_len(blk.uvs@.map_values(|t: crate::uv::UV| t.u), 24);
    lemma_words_prefix_len(blk.uvs@.map_values(|t: crate::uv::UV| t.v), 24);
    lemma_ids_prefix_len(blk.texture_ids@, 6);
}

/// A blocks prefix is 316 bytes per block.
pub proof fn lemma_blocks_prefix_len(blocks: Seq<Block>, k: int)
    requires
        0 <= k,
    ensures
        blocks_prefix(blocks, k).len() == 316 * k,
    decreases k,
{
    if k > 0 {
        lemma_blocks_prefix_len(blocks, k - 1);
        lemma_block_bytes_len(blocks[k - 1]);
    }
}

/// A table prefix is 31 bytes per record.
pub proof fn lemma_table_prefix_len(names: Seq<Seq<u8>>, k: int)
    requires
        0 <= k,
    ensures
        table_prefix(names, k).len() == 31 * k,
    decreases k,
{
    if k > 0 {
        lemma_table_prefix_len(names, k - 1);
    }
}

/// Reading four bytes as a word and serializing the word back recovers the
/// bytes.
pub proof fn lemma_word_le_roundtrip(b0: u8, b1: u8, b2: u8, b3: u8)
    ensures
        0 <= word_of_le(b0, b1, b2, b3) <= u32::MAX,
        le_bytes_of(word_of_le(b0, b1, b2, b3) as u32) == seq![b0, b1, b2, b3],
{
    let w = (b0 + 0x100 * b1 + 0x1_0000 * b2 + 0x100_0000 * b3) as u32;
    assert(w % 0x100 == b0 && w / 0x100 % 0x100 == b1 && w / 0x1_0000 % 0x100 == b2 && w
        / 0x100_0000 == b3) by (bit_vector)
        requires
            w == b0 + 0x100 * b1 + 0x1_0000 * b2 + 0x100_0000 * b3,
    ;
    assert(le_bytes_of(w) =~= seq![b0, b1, b2, b3]);
}

} // verus!
